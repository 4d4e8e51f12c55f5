use affinitypool::bits::{clamp, next_power_of_two, next_rand, seed};
use affinitypool::producer::{Producer, WorkerHandle, SPILL_THRESHOLD};
use affinitypool::deque::Steal;
use affinitypool::queue::{shard_count, Probe, Queue, Scan};
use affinitypool::walk::{after_steal, Place, ScanWalk, Visit};

const ADDRESS: usize = 100;

fn found(task: u64) -> Scan {
    Scan { found: Some(task), contended: false }
}

const NOTHING: Scan = Scan { found: None, contended: false };

fn hinted(hint: usize) -> Producer {
    let mut producer = Producer::new();
    producer.shard_hint = Some(hint);
    producer
}

/// Takes everything that worker `idx` can find.
fn drain(queue: &mut Queue, idx: usize) -> Vec<u64> {
    let mut tasks = vec![];
    loop {
        let scan = queue.scan(idx, Probe::Strict);
        match scan.found {
            Some(task) => tasks.push(task),
            None if scan.contended => {}
            None => return tasks,
        }
    }
}

#[test]
fn default_shards_follow_the_workers() {
    let counts: Vec<usize> = [1, 2, 3, 4, 5, 8, 9, 512]
        .iter()
        .map(|workers| shard_count(*workers, None))
        .collect();
    assert_eq!(counts, vec![1, 2, 4, 4, 8, 8, 8, 8]);
    assert_eq!(shard_count(0, None), 1);
}

#[test]
fn shard_override_is_confined_and_rounded_up() {
    assert_eq!(shard_count(8, Some(0)), 1);
    assert_eq!(shard_count(8, Some(3)), 4);
    assert_eq!(shard_count(8, Some(100)), 8);
    assert_eq!(shard_count(6, Some(6)), 8);
    assert_eq!(shard_count(6, Some(usize::MAX)), 8);
    assert_eq!(shard_count(64, Some(64)), 64);
    assert_eq!(shard_count(0, Some(5)), 1);
    assert_eq!(Queue::new(6, Some(5)).num_shards(), 8);
    assert_eq!(Queue::new(6, Some(5)).num_workers(), 6);
}

#[test]
fn rounding_and_clamping() {
    assert_eq!(next_power_of_two(0), 1);
    assert_eq!(next_power_of_two(1), 1);
    assert_eq!(next_power_of_two(17), 32);
    assert_eq!(next_power_of_two(1 << 63), 1 << 63);
    assert_eq!(clamp(0, 1, 512), 1);
    assert_eq!(clamp(7, 1, 512), 7);
    assert_eq!(clamp(513, 1, 512), 512);
}

#[test]
fn generator_gives_the_xorshift_sequence() {
    let mut rng: u32 = 1;
    assert_eq!(next_rand(&mut rng), 270369);
    assert_eq!(next_rand(&mut rng), 67634689);
    assert_eq!(rng, 67634689);
    assert_eq!(seed(0), 1);
    assert_eq!(seed(1), 0x9E37_79B9);
    assert_eq!(seed(2), 0x3C6E_F373);
}

#[test]
fn single_worker_runs_tasks_in_order() {
    let mut queue = Queue::new(1, None);
    queue.register_worker(0);
    let mut producer = Producer::new();
    for task in 0..100 {
        assert_eq!(queue.push(task, &mut producer, ADDRESS, || 9), None);
    }
    assert_eq!(producer.shard_hint, None);
    assert_eq!(drain(&mut queue, 0), (0..100).collect::<Vec<u64>>());
    assert_eq!(queue.scan(0, Probe::Cheap), NOTHING);
}

#[test]
fn steal_moves_a_batch_into_the_deque_of_the_thief() {
    let mut queue = Queue::new(2, None);
    queue.register_worker(0);
    queue.register_worker(1);
    let mut producer = hinted(0);
    for task in 0..4 {
        queue.push(task, &mut producer, ADDRESS, || 0);
    }
    assert_eq!(queue.scan(0, Probe::Cheap), found(0));
    let left = queue.register_worker(0);
    assert!(!left.is_empty(), "a batch must have moved");
    assert_eq!(left[0], 1);
    let mut rest = drain(&mut queue, 1);
    assert_eq!(left.len() + rest.len(), 3);
    rest.extend(left);
    rest.sort();
    assert_eq!(rest, vec![1, 2, 3]);
}

#[test]
fn worker_finds_tasks_in_every_shard_and_at_every_peer() {
    for workers in 1..10 {
        for home in 0..workers {
            let mut queue = Queue::new(workers, None);
            for idx in 0..workers {
                queue.register_worker(idx);
            }
            let mut all = vec![];
            for shard in 0..queue.num_shards() {
                queue.push(shard as u64, &mut hinted(shard), ADDRESS, || 0);
                all.push(shard as u64);
            }
            for idx in 0..workers {
                let mut producer = Producer::new();
                producer.enter_worker_scope(ADDRESS, idx);
                queue.push(100 + idx as u64, &mut producer, ADDRESS, || 0);
                all.push(100 + idx as u64);
            }
            let mut tasks = drain(&mut queue, home);
            assert_eq!(tasks[0], 100 + home as u64);
            assert_eq!(tasks[1], (home & (queue.num_shards() - 1)) as u64);
            tasks.sort();
            assert_eq!(tasks, all);
        }
    }
}

#[test]
fn cheap_scan_steals_from_a_shard_and_from_a_peer() {
    let mut queue = Queue::new(2, Some(1));
    queue.register_worker(0);
    queue.register_worker(1);
    let mut peer = Producer::new();
    peer.enter_worker_scope(ADDRESS, 1);
    queue.push(1, &mut peer, ADDRESS, || 0);
    queue.push(2, &mut Producer::new(), ADDRESS, || 0);
    assert_eq!(queue.scan(0, Probe::Cheap), found(2));
    assert_eq!(queue.scan(0, Probe::Cheap), found(1));
    assert_eq!(queue.scan(0, Probe::Cheap), NOTHING);
    assert_eq!(queue.scan(1, Probe::Cheap), NOTHING);
}

#[test]
fn lone_task_of_a_peer_is_stolen() {
    for probe in [Probe::Strict, Probe::Cheap] {
        let mut queue = Queue::new(3, Some(1));
        for idx in 0..3 {
            queue.register_worker(idx);
        }
        let mut peer = Producer::new();
        peer.enter_worker_scope(ADDRESS, 2);
        queue.push(7, &mut peer, ADDRESS, || 0);
        assert_eq!(queue.scan(0, probe), found(7));
        for idx in 0..3 {
            assert!(queue.register_worker(idx).is_empty());
        }
    }
}

#[test]
fn lost_attempt_makes_a_pass_contended() {
    assert_eq!(after_steal(Steal::Success(4), true), Visit::Found(4));
    assert_eq!(after_steal(Steal::Retry, false), Visit::GoOn(true));
    assert_eq!(after_steal(Steal::Empty, false), Visit::GoOn(false));
    assert_eq!(after_steal(Steal::Empty, true), Visit::GoOn(true));
}

/// Every place of worker `idx`'s walk, when each attempt comes to `outcome`.
fn places(idx: usize, shards: usize, workers: usize, rng: u32, outcome: Steal) -> Vec<Place> {
    let mut walk = ScanWalk::new(idx, shards, workers, rng);
    let mut places = vec![];
    while let Some(place) = walk.place() {
        places.push(place);
        walk.observe(outcome);
    }
    assert_eq!(walk.found, None);
    assert_eq!(walk.contended, outcome == Steal::Retry);
    places
}

#[test]
fn walk_goes_from_its_own_shard_to_the_others_and_to_the_peers() {
    // The generator gives 270369 and then 67634689: the rotation of the three other shards begins
    // at the first of them, and that of the five other workers at the fifth.
    let expected = vec![
        Place::Shard(1),
        Place::Shard(2),
        Place::Shard(3),
        Place::Shard(0),
        Place::Peer(4),
        Place::Peer(0),
        Place::Peer(1),
        Place::Peer(2),
        Place::Peer(3),
    ];
    assert_eq!(places(5, 4, 6, 1, Steal::Empty), expected);
    assert_eq!(places(5, 4, 6, 1, Steal::Retry), expected);
    assert_eq!(places(0, 1, 1, 7, Steal::Empty), vec![Place::Shard(0)]);
}

#[test]
fn walk_ends_with_the_task_that_it_finds() {
    let mut walk = ScanWalk::new(0, 2, 2, 1);
    walk.observe(Steal::Retry);
    assert_eq!(walk.place(), Some(Place::Shard(1)));
    walk.observe(Steal::Empty);
    assert_eq!(walk.place(), Some(Place::Peer(1)));
    walk.observe(Steal::Success(9));
    assert_eq!(walk.place(), None);
    assert_eq!(walk.found, Some(9));
    assert!(walk.contended);
    assert_eq!(walk.rng, 67634689);
}

#[test]
fn generators_never_reach_zero() {
    for idx in 0..16 {
        let mut rng = seed(idx);
        for _ in 0..1000 {
            assert_ne!(next_rand(&mut rng), 0);
        }
    }
}

#[test]
fn unregistered_worker_is_passed_by() {
    let mut queue = Queue::new(3, None);
    queue.register_worker(1);
    assert_eq!(queue.scan(1, Probe::Strict), NOTHING);
    assert_eq!(queue.scan(1, Probe::Cheap), NOTHING);
}

#[test]
fn restarted_worker_leaves_its_deque_behind() {
    let mut queue = Queue::new(2, None);
    queue.register_worker(0);
    queue.register_worker(1);
    let mut producer = Producer::new();
    producer.enter_worker_scope(ADDRESS, 0);
    for task in 1..4 {
        queue.push(task, &mut producer, ADDRESS, || 0);
    }
    assert_eq!(queue.register_worker(0), vec![1, 2, 3]);
    assert!(drain(&mut queue, 1).is_empty());
}

#[test]
fn worker_pushes_into_its_own_deque_only_for_its_own_queue() {
    let mut queue = Queue::new(2, None);
    queue.register_worker(0);
    queue.register_worker(1);
    queue.arm();
    let mut producer = hinted(0);
    producer.enter_worker_scope(ADDRESS, 1);
    assert_eq!(producer.worker, Some(WorkerHandle { queue: ADDRESS, idx: 1 }));
    assert_eq!(producer.current_worker(ADDRESS), Some(1));
    assert_eq!(producer.current_worker(ADDRESS + 1), None);
    assert_eq!(queue.push(5, &mut producer, ADDRESS, || 0), Some(2));
    assert_eq!(queue.push(6, &mut producer, ADDRESS + 1, || 0), Some(0));
    producer.leave_worker_scope();
    assert_eq!(queue.push(7, &mut producer, ADDRESS, || 0), Some(0));
    queue.disarm();
    assert_eq!(queue.push(8, &mut producer, ADDRESS, || 0), None);
    assert_eq!(queue.register_worker(1), vec![5]);
    assert_eq!(drain(&mut queue, 0), vec![6, 7, 8]);
}

#[test]
fn hint_is_computed_once() {
    let mut queue = Queue::new(8, None);
    let mut producer = Producer::new();
    let mut calls = 0;
    queue.arm();
    let wake = queue.push(1, &mut producer, ADDRESS, || {
        calls += 1;
        0xff3
    });
    assert_eq!(wake, Some(3));
    assert_eq!(queue.push(2, &mut producer, ADDRESS, || panic!("the hint is known")), Some(3));
    assert_eq!(calls, 1);
    assert_eq!(producer.shard_hint, Some(0xff3));
}

#[test]
fn long_run_spills_over_to_the_neighbours() {
    let mut producer = Producer::new();
    let targets: Vec<usize> = (0..14).map(|_| producer.route(6, 3)).collect();
    assert_eq!(SPILL_THRESHOLD, 8);
    assert_eq!(targets, vec![2, 2, 2, 2, 2, 2, 2, 2, 3, 0, 1, 2, 3, 0]);
    assert_eq!(producer.route(1, 3), 1);
    assert_eq!(producer.route(2, 3), 2);
    assert_eq!(producer.spill.count, 1);
}
