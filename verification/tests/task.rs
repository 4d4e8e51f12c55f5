use affinitypool::task::{OwnedTask, TaskVTable};
use std::sync::atomic::{AtomicBool, AtomicUsize, Ordering};
use std::sync::Arc;

struct TestTask {
    ran: Arc<AtomicBool>,
    dropped: Arc<AtomicBool>,
}

fn test_call(task: TestTask) {
    task.ran.store(true, Ordering::SeqCst);
}

fn test_drop(task: TestTask) {
    task.dropped.store(true, Ordering::SeqCst);
}

fn make_task() -> (TestTask, Arc<AtomicBool>, Arc<AtomicBool>) {
    let ran = Arc::new(AtomicBool::new(false));
    let dropped = Arc::new(AtomicBool::new(false));
    (TestTask { ran: ran.clone(), dropped: dropped.clone() }, ran, dropped)
}

#[test]
fn run_dispatches_to_call_and_skips_drop() {
    let (task, ran, dropped) = make_task();
    let task = OwnedTask::from_raw(task, TaskVTable { call: test_call, drop: test_drop });
    task.run();
    assert!(ran.load(Ordering::SeqCst));
    assert!(!dropped.load(Ordering::SeqCst));
}

#[test]
fn drop_dispatches_to_drop_vtable() {
    let (task, ran, dropped) = make_task();
    let task = OwnedTask::from_raw(task, TaskVTable { call: test_call, drop: test_drop });
    task.discard();
    assert!(dropped.load(Ordering::SeqCst));
    assert!(!ran.load(Ordering::SeqCst));
}

struct Tracker {
    counter: Arc<AtomicUsize>,
    payload: Vec<u8>,
}

#[test]
fn vtable_first_field_is_observed_correctly() {
    let counter = Arc::new(AtomicUsize::new(0));
    let tracker = Tracker { counter: counter.clone(), payload: vec![1, 2, 3, 4, 5] };
    let table = TaskVTable {
        call: |task: Tracker| {
            task.counter.fetch_add(task.payload.len(), Ordering::SeqCst);
        },
        drop: |_: Tracker| {},
    };
    OwnedTask::from_raw(tracker, table).run();
    assert_eq!(counter.load(Ordering::SeqCst), 5);
}
