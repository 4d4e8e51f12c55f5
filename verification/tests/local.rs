use affinitypool::local::{DropAction, SpawnPoll};
use affinitypool::SpawnFuture;

type Polled = SpawnPoll<u32, &'static str>;

#[test]
fn first_poll_schedules_and_later_ones_do_not() {
    let mut future: SpawnFuture<&str, u8> = SpawnFuture::new("job", 0);
    let mut scheduled: Vec<&str> = vec![];
    let mut polls = 0;
    let polled: Polled = future.poll(|job| scheduled.push(job), |task| {
        *task += 1;
        None
    });
    assert!(matches!(polled, SpawnPoll::Pending));
    let polled: Polled = future.poll(|job| scheduled.push(job), |task| {
        polls = *task;
        Some(Ok(42))
    });
    assert!(matches!(polled, SpawnPoll::Ready(42)));
    assert_eq!(polls, 1);
    assert_eq!(scheduled, vec!["job"]);
    assert!(matches!(future.on_drop(), DropAction::Nothing));
}

#[test]
fn poll_resumes_a_panic() {
    let mut future: SpawnFuture<(), ()> = SpawnFuture::new((), ());
    let polled: Polled = future.poll(|_| {}, |_| Some(Err("boom")));
    assert!(matches!(polled, SpawnPoll::Resume("boom")));
    assert!(matches!(future.on_drop(), DropAction::Nothing));
}

#[test]
fn unpolled_future_is_released_without_waiting() {
    let mut future: SpawnFuture<&str, u8> = SpawnFuture::new("job", 3);
    match future.on_drop() {
        DropAction::Discard { runnable, task } => assert_eq!((runnable, task), ("job", 3)),
        _ => panic!("nothing was scheduled"),
    }
    assert!(matches!(future.on_drop(), DropAction::Nothing));
}

#[test]
fn polled_future_waits_for_its_worker() {
    let mut future: SpawnFuture<&str, u8> = SpawnFuture::new("job", 3);
    let _: Polled = future.poll(|_| {}, |task| {
        *task += 1;
        None
    });
    assert!(matches!(future.on_drop(), DropAction::Cancel(4)));
}
