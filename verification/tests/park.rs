use affinitypool::park::{PopAction, PopLoop, PopStage, Seen, WakeAction, WakeWalk, WorkerParker};
use affinitypool::producer::Producer;
use affinitypool::queue::Queue;

#[test]
fn walk_goes_round_once_where_nobody_is_busy() {
    let mut walk = WakeWalk::new(5, 3);
    let mut places = vec![];
    while let WakeAction::TryLock(i) = walk.next() {
        places.push(i);
        walk.observe(Seen::Awake);
    }
    assert_eq!(places, vec![2, 0, 1]);
    assert_eq!(walk.next(), WakeAction::Done(false));
}

#[test]
fn walk_waits_in_a_second_round_after_a_busy_parker() {
    let mut walk = WakeWalk::new(1, 2);
    assert_eq!(walk.next(), WakeAction::TryLock(1));
    walk.observe(Seen::Busy);
    assert_eq!(walk.next(), WakeAction::TryLock(0));
    walk.observe(Seen::Awake);
    assert_eq!(walk.next(), WakeAction::Lock(1));
    walk.observe(Seen::Awake);
    assert_eq!(walk.next(), WakeAction::Lock(0));
    walk.observe(Seen::Claimed);
    assert_eq!(walk.next(), WakeAction::Done(true));
}

#[test]
fn walk_claims_the_first_sleeper() {
    let mut parkers = [WorkerParker::new(); 4];
    parkers[0].blocked = true;
    parkers[3].blocked = true;
    let mut walk = WakeWalk::new(1, 4);
    let mut claimed = None;
    while let WakeAction::TryLock(i) = walk.next() {
        if parkers[i].claim() {
            claimed = Some(i);
            walk.observe(Seen::Claimed);
        } else {
            walk.observe(Seen::Awake);
        }
    }
    assert_eq!(claimed, Some(3));
    assert_eq!(walk.next(), WakeAction::Done(true));
    assert!(!parkers[3].claim());
    assert!(parkers[0].blocked);
    parkers[0].release();
    assert!(!parkers[0].blocked);
}

#[test]
fn idle_worker_spins_three_times_yields_four_times_and_sleeps() {
    let mut queue = Queue::new(1, None);
    queue.register_worker(0);
    let mut pop = PopLoop::new(0);
    let mut parker = WorkerParker::new();
    let mut actions = vec![];
    loop {
        let action = pop.step(&mut queue);
        actions.push(action);
        if action == PopAction::Sleep {
            break;
        }
    }
    assert_eq!(
        actions,
        vec![
            PopAction::Spin,
            PopAction::Spin,
            PopAction::Spin,
            PopAction::Yield,
            PopAction::Yield,
            PopAction::Yield,
            PopAction::Yield,
            PopAction::Lock,
            PopAction::Again,
            PopAction::Again,
            PopAction::Sleep,
        ]
    );
    assert_eq!(queue.parked(), 1);
    pop.fall_asleep(&mut parker);
    assert!(parker.blocked);
    assert_eq!(pop.stage, PopStage::Asleep);

    let mut producer = Producer::new();
    assert_eq!(queue.push(9, &mut producer, 1, || 0), Some(0));
    assert!(parker.claim());
    pop.wake_up(&mut parker, &mut queue);
    assert_eq!(queue.parked(), 0);
    assert_eq!(pop.step(&mut queue), PopAction::Run(9));
    assert_eq!(queue.push(10, &mut producer, 1, || 0), None);
}

#[test]
fn worker_takes_what_waits_before_it_obeys_the_shutdown() {
    let mut queue = Queue::new(1, None);
    queue.register_worker(0);
    let mut producer = Producer::new();
    queue.push(1, &mut producer, 1, || 0);
    queue.shutdown();
    assert!(queue.is_shutdown());
    let mut pop = PopLoop::new(0);
    assert_eq!(pop.step(&mut queue), PopAction::Run(1));
    let mut action = pop.step(&mut queue);
    while action != PopAction::Exit {
        assert!(!matches!(action, PopAction::Run(_) | PopAction::Sleep));
        action = pop.step(&mut queue);
    }
    assert_eq!(queue.parked(), 0);
    assert_eq!(pop.stage, PopStage::Exited);
}
