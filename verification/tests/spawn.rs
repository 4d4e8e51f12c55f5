use affinitypool::spawn::{SlotPoll, SlotStage, SpawnCompletion, SpawnHandle};
use std::sync::atomic::{AtomicUsize, Ordering};
use std::sync::Arc;

type Slot<R> = SpawnCompletion<R, String, u32>;

/// Counts how often it is dropped.
struct Tracker(Arc<AtomicUsize>);

impl Drop for Tracker {
    fn drop(&mut self) {
        self.0.fetch_add(1, Ordering::SeqCst);
    }
}

#[test]
fn poll_after_complete_returns_value() {
    let mut completion = Slot::<u64>::new();
    assert_eq!(completion.complete(Ok(0xdead_beef)), None);
    let mut handle = SpawnHandle::new();
    match handle.poll(&mut completion, 1) {
        SlotPoll::Ready(v) => assert_eq!(v, 0xdead_beef),
        _ => panic!("should be Ready after complete"),
    }
    assert!(!handle.attached);
    assert_eq!(completion.stage, SlotStage::Taken);
    assert_eq!(completion.on_drop(), None);
}

#[test]
fn poll_pending_then_complete_then_ready() {
    let mut completion = Slot::<u32>::new();
    let mut handle = SpawnHandle::new();
    match handle.poll(&mut completion, 1) {
        SlotPoll::Pending => {}
        _ => panic!("should be Pending before complete"),
    }
    assert_eq!(completion.complete(Ok(42)), Some(1));
    match handle.poll(&mut completion, 2) {
        SlotPoll::Ready(v) => assert_eq!(v, 42),
        _ => panic!("should be Ready after complete"),
    }
}

#[test]
fn drop_without_poll_frees_written_payload() {
    let drops = Arc::new(AtomicUsize::new(0));
    let mut completion: Slot<Tracker> = SpawnCompletion::new();
    completion.complete(Ok(Tracker(drops.clone())));
    let handle = SpawnHandle::new();
    drop(handle);
    assert_eq!(drops.load(Ordering::SeqCst), 0);
    drop(completion.on_drop());
    assert_eq!(drops.load(Ordering::SeqCst), 1);
}

#[test]
fn drop_without_complete_is_safe() {
    let mut completion: Slot<u64> = SpawnCompletion::new();
    let mut handle = SpawnHandle::new();
    let _ = handle.poll(&mut completion, 1);
    drop(handle);
    assert_eq!(completion.on_drop(), None);
}

#[test]
fn panic_path_resumes_on_awaiter() {
    let mut completion = Slot::<u64>::new();
    completion.complete(Err("boom".to_string()));
    let mut handle = SpawnHandle::new();
    match handle.poll(&mut completion, 1) {
        SlotPoll::Resume(payload) => assert_eq!(payload, "boom"),
        _ => panic!("panic must propagate"),
    }
}

/// In every order of the worker's two steps and the awaiter's looks, the awaiter sees the value
/// that was stored, and an awaiter that sees nothing after it left its waker is woken.
#[test]
fn loom_spawn_completion_release_acquire() {
    for schedule in 0u32..1 << 8 {
        let mut slot = Slot::<u32>::new();
        let mut handle = SpawnHandle::new();
        let mut worker_steps = 0;
        let mut awaiter_steps = 0;
        let mut taken = None;
        let mut woken = false;
        let mut waits = false;
        for turn in 0..16 {
            let awaiter = turn < 8 && schedule >> turn & 1 == 1;
            if !awaiter && worker_steps < 2 {
                if worker_steps == 0 {
                    slot.store(Ok(0xdead_beef));
                } else {
                    woken = slot.wake().is_some();
                }
                worker_steps += 1;
            } else if taken.is_none() {
                if awaiter_steps % 2 == 1 {
                    slot.register(1);
                } else {
                    match handle.check(&mut slot) {
                        SlotPoll::Ready(v) => {
                            assert_eq!(v, 0xdead_beef);
                            taken = Some(v);
                        }
                        SlotPoll::Pending => waits = awaiter_steps > 0,
                        SlotPoll::Resume(_) => panic!("no panic was stored"),
                    }
                }
                awaiter_steps += 1;
            }
        }
        assert_eq!(taken, Some(0xdead_beef));
        assert!(woken || !waits, "lost wake-up in schedule {schedule:b}");
    }
}

/// The awaiter goes away without a look, before or after the worker: the value is freed once.
#[test]
fn loom_completion_drop_after_release_frees_payload() {
    for awaiter_first in [true, false] {
        let mut slot = Slot::<u32>::new();
        let handle = SpawnHandle::new();
        if awaiter_first {
            drop(handle);
            slot.complete(Ok(99));
        } else {
            slot.complete(Ok(99));
            drop(handle);
        }
        assert_eq!(slot.on_drop(), Some(Ok(99)));
    }
}
