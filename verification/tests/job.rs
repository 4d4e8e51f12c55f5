use affinitypool::job::{Job, JobPoll, Released, Stage, ABORTED_MESSAGE};
use std::sync::atomic::{AtomicUsize, Ordering};
use std::sync::Arc;

/// Counts how often it is dropped.
struct DropTracker(Arc<AtomicUsize>);

impl Drop for DropTracker {
    fn drop(&mut self) {
        self.0.fetch_add(1, Ordering::SeqCst);
    }
}

#[test]
fn allocate_run_poll_returns_value() {
    let (task, mut handle) = Job::<_, _, String, u32>::allocate(|| Ok(0xfeedu32));
    let mut finished = task.run();
    assert!(finished.waker.is_none());
    assert!(matches!(finished.released, Released::Live));
    match handle.poll(&mut finished.job, 1) {
        JobPoll::Ready(v) => assert_eq!(v, 0xfeed),
        _ => panic!("expected Ready"),
    }
    assert!(!handle.attached);
    assert_eq!(finished.job.refs, 0);
    assert_eq!(finished.job.stage, Stage::Taken);
}

#[test]
fn drop_handle_then_run_worker_frees_result() {
    let drops = Arc::new(AtomicUsize::new(0));
    let drops_clone = drops.clone();
    let (mut task, mut handle) = Job::<_, _, String, u32>::allocate(move || Ok(DropTracker(drops_clone)));
    assert!(matches!(handle.on_drop(&mut task.task), Released::Live));
    let finished = task.run();
    assert_eq!(finished.job.refs, 0);
    match finished.released {
        Released::Freed { closure: None, result: Some(Ok(result)) } => drop(result),
        _ => panic!("the worker must get the unconsumed result"),
    }
    drop(finished.job);
    assert_eq!(drops.load(Ordering::SeqCst), 1);
}

#[test]
fn drop_task_then_poll_handle_panics_with_abort() {
    let drops = Arc::new(AtomicUsize::new(0));
    let tracker = DropTracker(drops.clone());
    let (task, mut handle) = Job::<_, _, String, u32>::allocate(move || {
        let _t = tracker;
        Ok(0u32)
    });
    let mut finished = task.discard();
    assert_eq!(drops.load(Ordering::SeqCst), 1, "closure captures must be dropped on abort");
    match handle.poll(&mut finished.job, 1) {
        JobPoll::Aborted(message) => {
            assert_eq!(message, "affinitypool job aborted before execution");
            assert_eq!(message, ABORTED_MESSAGE);
        }
        _ => panic!("ABORTED must surface as a panic"),
    }
    assert!(!handle.attached);
    assert_eq!(finished.job.refs, 0);
}

#[test]
fn worker_panic_propagates_to_awaiter() {
    let (task, mut handle) = Job::<_, _, String, u32>::allocate(|| -> Result<u32, String> { Err("boom".to_string()) });
    let mut finished = task.run();
    match handle.poll(&mut finished.job, 1) {
        JobPoll::Resume(payload) => assert_eq!(payload, "boom"),
        _ => panic!("panic must propagate from worker to awaiter"),
    }
}

#[test]
fn poll_pending_then_run_then_ready() {
    let (mut task, mut handle) = Job::<_, _, String, u32>::allocate(|| Ok(7u32));
    match handle.poll(&mut task.task, 11) {
        JobPoll::Pending => {}
        _ => panic!("should be Pending before run"),
    }
    let mut finished = task.run();
    assert_eq!(finished.waker, Some(11));
    match handle.poll(&mut finished.job, 12) {
        JobPoll::Ready(v) => assert_eq!(v, 7),
        _ => panic!("should be Ready after run"),
    }
}

#[test]
fn unconsumed_owned_result_dropped_exactly_once() {
    let drops = Arc::new(AtomicUsize::new(0));
    let drops_clone = drops.clone();
    let (task, mut handle) = Job::<_, _, String, u32>::allocate(move || Ok(DropTracker(drops_clone)));
    let mut finished = task.run();
    match handle.on_drop(&mut finished.job) {
        Released::Freed { closure: None, result: Some(Ok(_)) } => {}
        _ => panic!("the awaiter must get the unconsumed result"),
    }
    assert!(matches!(handle.on_drop(&mut finished.job), Released::Live));
    drop(finished.job);
    assert_eq!(drops.load(Ordering::SeqCst), 1);
}

#[test]
fn worker_between_the_two_looks_of_a_poll_is_not_missed() {
    let (mut task, mut handle) = Job::<_, _, String, u32>::allocate(|| Ok(5u8));
    assert!(matches!(handle.check(&mut task.task), JobPoll::Pending));
    task.task.register(3);
    let closure = task.task.start();
    let outcome = closure();
    task.task.store(outcome);
    assert!(matches!(handle.check(&mut task.task), JobPoll::Ready(5)));
    assert_eq!(task.task.wake(), Some(3));
    assert_eq!(task.task.wake(), None);
}

#[test]
fn latest_waker_is_woken() {
    let (mut task, mut handle) = Job::<_, _, String, u32>::allocate(|| Ok(()));
    assert!(matches!(handle.poll(&mut task.task, 1), JobPoll::Pending));
    assert!(matches!(handle.poll(&mut task.task, 2), JobPoll::Pending));
    assert_eq!(task.discard().waker, Some(2));
}

#[test]
fn last_reference_gets_a_closure_that_never_ran() {
    let (task, _handle) = Job::<_, _, String, u32>::allocate(|| Ok(9u8));
    let mut job = task.task;
    assert!(matches!(job.release_ref(), Released::Live));
    match job.release_ref() {
        Released::Freed { closure: Some(closure), result: None } => assert_eq!(closure(), Ok(9)),
        _ => panic!("the closure must be handed out"),
    }
}
