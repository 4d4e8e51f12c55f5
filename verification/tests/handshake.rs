//! Every order of the steps of producers and workers, over the real queue.
//!
//! A schedule is a list of actors; it is played from the start, and then extended by each actor
//! that can go on, unless the state was met before. A worker's scans before it takes the lock of
//! its parker are one step.

use affinitypool::park::{PopAction, PopLoop, PopStage, Seen, WakeAction, WakeWalk, WorkerParker};
use affinitypool::producer::Producer;
use affinitypool::queue::Queue;
use std::collections::HashSet;

const ADDRESS: usize = 1;

#[derive(Clone, Copy, Debug)]
enum Op {
    /// Push a task with a shard hint, and wake a worker if the queue asks for that.
    Push(u64, usize),
    /// Push a task and look for a sleeper whatever the queue says.
    PushAndWalk(u64, usize),
    /// The worker that has got the first task pushes the second from inside it, and stays there.
    PushFrom(u64, u64),
    /// Order the shutdown and release every parker.
    Shutdown,
}

#[derive(Debug)]
struct Searcher {
    pop: PopLoop,
    holds: bool,
    waits: bool,
    notified: bool,
    got: Option<Option<u64>>,
}

#[derive(Debug)]
struct Script {
    ops: Vec<Op>,
    next: usize,
    walk: Option<WakeWalk>,
    sweep: Option<usize>,
}

struct Sim {
    queue: Queue,
    parkers: Vec<WorkerParker>,
    workers: Vec<Searcher>,
    script: Script,
    waiting: Vec<u64>,
    claims: usize,
    /// Every task that was run, in order.
    ran: Vec<u64>,
    /// A worker goes on after it has run a task.
    keeps_on: bool,
}

impl Sim {
    /// A queue of two shards with `slots` places for workers, of which the first `running` run.
    fn new(slots: usize, running: usize, ops: Vec<Op>) -> Sim {
        let mut queue = Queue::new(slots, Some(2));
        assert_eq!(queue.num_shards(), 2);
        let mut workers = vec![];
        for idx in 0..running {
            assert!(queue.register_worker(idx).is_empty());
            workers.push(Searcher {
                pop: PopLoop::new(idx),
                holds: false,
                waits: false,
                notified: false,
                got: None,
            });
        }
        Sim {
            queue,
            parkers: vec![WorkerParker::new(); slots],
            workers,
            script: Script { ops, next: 0, walk: None, sweep: None },
            waiting: vec![],
            claims: 0,
            ran: vec![],
            keeps_on: false,
        }
    }

    fn key(&self) -> String {
        format!(
            "{:?} {:?} {:?} {:?} {} {} {} {:?}",
            self.parkers,
            self.workers,
            self.script,
            self.waiting,
            self.queue.parked(),
            self.queue.is_shutdown(),
            self.claims,
            self.ran,
        )
    }

    fn is_held(&self, i: usize) -> bool {
        i < self.workers.len() && self.workers[i].holds
    }

    fn notify(&mut self, i: usize) {
        if i < self.workers.len() && self.workers[i].waits {
            self.workers[i].notified = true;
        }
    }

    fn script_done(&self) -> bool {
        self.script.next == self.script.ops.len()
    }

    /// Actors are the workers, by index, and after them the producer.
    fn can_go_on(&self, actor: usize) -> bool {
        if actor < self.workers.len() {
            let worker = &self.workers[actor];
            return worker.got.is_none() && (!worker.waits || worker.notified);
        }
        if self.script_done() {
            return false;
        }
        match (self.script.walk, self.script.sweep) {
            (Some(walk), _) => match walk.next() {
                WakeAction::Lock(i) => !self.is_held(i),
                _ => true,
            },
            (None, Some(i)) => i == self.parkers.len() || !self.is_held(i),
            (None, None) => match self.script.ops[self.script.next] {
                Op::PushFrom(task, _) => self.holder(task).is_some(),
                _ => true,
            },
        }
    }

    /// The worker that has got a task.
    fn holder(&self, task: u64) -> Option<usize> {
        self.workers.iter().position(|worker| worker.got == Some(Some(task)))
    }

    fn go_on(&mut self, actor: usize) {
        if actor < self.workers.len() {
            self.work(actor);
        } else {
            self.produce();
        }
    }

    fn work(&mut self, i: usize) {
        if self.workers[i].waits {
            let mut pop = self.workers[i].pop;
            pop.wake_up(&mut self.parkers[i], &mut self.queue);
            self.workers[i].pop = pop;
            self.workers[i].waits = false;
            self.workers[i].notified = false;
            return;
        }
        let mut pop = self.workers[i].pop;
        if pop.stage == PopStage::Committed {
            pop.fall_asleep(&mut self.parkers[i]);
            self.workers[i].pop = pop;
            self.workers[i].holds = false;
            self.workers[i].waits = true;
            return;
        }
        let mut action = pop.step(&mut self.queue);
        while matches!(action, PopAction::Spin | PopAction::Yield) {
            action = pop.step(&mut self.queue);
        }
        self.workers[i].pop = pop;
        match action {
            PopAction::Run(task) => {
                self.waiting.retain(|waiting| *waiting != task);
                self.workers[i].holds = false;
                self.ran.push(task);
                if !self.keeps_on {
                    self.workers[i].got = Some(Some(task));
                }
            }
            PopAction::Exit => {
                self.workers[i].holds = false;
                self.workers[i].got = Some(None);
            }
            PopAction::Lock => self.workers[i].holds = true,
            _ => {}
        }
    }

    fn push(&mut self, task: u64, hint: usize) -> Option<usize> {
        let mut producer = Producer::new();
        producer.shard_hint = Some(hint);
        self.waiting.push(task);
        self.queue.push(task, &mut producer, ADDRESS, || panic!("the hint is known"))
    }

    fn produce(&mut self) {
        if let Some(mut walk) = self.script.walk {
            let (place, waiting) = match walk.next() {
                WakeAction::TryLock(i) => (i, false),
                WakeAction::Lock(i) => (i, true),
                WakeAction::Done(_) => {
                    self.script.walk = None;
                    self.script.next += 1;
                    return;
                }
            };
            let seen = if self.is_held(place) {
                assert!(!waiting);
                Seen::Busy
            } else if self.parkers[place].claim() {
                self.claims += 1;
                self.notify(place);
                Seen::Claimed
            } else {
                Seen::Awake
            };
            walk.observe(seen);
            self.script.walk = Some(walk);
            return;
        }
        if let Some(i) = self.script.sweep {
            if i == self.parkers.len() {
                self.script.sweep = None;
                self.script.next += 1;
            } else {
                self.parkers[i].release();
                self.notify(i);
                self.script.sweep = Some(i + 1);
            }
            return;
        }
        match self.script.ops[self.script.next] {
            Op::Push(task, hint) => match self.push(task, hint) {
                Some(first) => {
                    self.script.walk = Some(WakeWalk::new(first, self.parkers.len()));
                }
                None => self.script.next += 1,
            },
            Op::PushFrom(first, task) => {
                let idx = self.holder(first).expect("the first task was got");
                let mut producer = Producer::new();
                producer.enter_worker_scope(ADDRESS, idx);
                self.waiting.push(task);
                let hash = || panic!("a worker needs no hint");
                match self.queue.push(task, &mut producer, ADDRESS, hash) {
                    Some(first) => {
                        self.script.walk = Some(WakeWalk::new(first, self.parkers.len()));
                    }
                    None => self.script.next += 1,
                }
            }
            Op::PushAndWalk(task, hint) => {
                self.push(task, hint);
                self.script.walk = Some(WakeWalk::new(hint, self.parkers.len()));
            }
            Op::Shutdown => {
                self.queue.shutdown();
                self.script.sweep = Some(0);
            }
        }
    }
}

/// Plays every schedule and checks each state in which nobody can go on: everyone must be done,
/// and `check` must hold.
fn explore(setup: &dyn Fn() -> Sim, check: &dyn Fn(&[Option<u64>], &Sim)) -> usize {
    let mut met: HashSet<String> = HashSet::new();
    let mut todo: Vec<Vec<usize>> = vec![vec![]];
    let mut ends = 0;
    while let Some(schedule) = todo.pop() {
        let mut sim = setup();
        for actor in &schedule {
            sim.go_on(*actor);
        }
        if !met.insert(sim.key()) {
            continue;
        }
        let actors = sim.workers.len() + 1;
        let able: Vec<usize> = (0..actors).filter(|actor| sim.can_go_on(*actor)).collect();
        if able.is_empty() {
            assert!(sim.script_done(), "the producer is stuck after {schedule:?}");
            let got: Vec<Option<u64>> = sim
                .workers
                .iter()
                .map(|worker| worker.got.expect("a worker sleeps forever"))
                .collect();
            check(&got, &sim);
            ends += 1;
        }
        for actor in able {
            let mut longer = schedule.clone();
            longer.push(actor);
            todo.push(longer);
        }
    }
    assert!(ends > 0);
    met.len()
}

#[test]
fn one_push_one_worker_two_shards() {
    explore(&|| Sim::new(2, 1, vec![Op::Push(7, 0)]), &|got, _| {
        assert_eq!(got[0], Some(7));
    });
}

#[test]
fn push_to_remote_shard() {
    explore(&|| Sim::new(2, 1, vec![Op::Push(7, 1)]), &|got, _| {
        assert_eq!(got[0], Some(7));
    });
}

#[test]
fn one_push_two_workers_exactly_one_wins() {
    explore(&|| Sim::new(2, 2, vec![Op::Push(7, 0), Op::Shutdown]), &|got, _| {
        let winners = got[0].iter().count() + got[1].iter().count();
        assert_eq!(winners, 1, "exactly one worker must take the single item");
    });
}

#[test]
fn two_pushes_two_workers_neither_is_stranded() {
    let states = explore(
        &|| Sim::new(2, 2, vec![Op::Push(7, 0), Op::Push(8, 1)]),
        &|got, _| {
            assert!(got[0].is_some());
            assert!(got[1].is_some());
            assert_ne!(got[0], got[1]);
        },
    );
    assert!(states > 500, "only {states} states were met");
}

#[test]
fn shutdown_wakes_parked_worker() {
    explore(&|| Sim::new(2, 1, vec![Op::Shutdown]), &|got, _| {
        assert_eq!(got[0], None);
    });
}

#[test]
fn shutdown_wakes_all_parked_workers() {
    explore(&|| Sim::new(2, 2, vec![Op::Shutdown]), &|got, _| {
        assert_eq!(got[0], None);
        assert_eq!(got[1], None);
    });
}

#[test]
fn shutdown_drains_pending_item() {
    let setup = || {
        let mut sim = Sim::new(2, 1, vec![Op::Shutdown]);
        assert_eq!(sim.push(7, 0), None);
        sim
    };
    explore(&setup, &|got, _| {
        assert_eq!(got[0], Some(7));
    });
}

#[test]
fn loom_park_unpark_handshake_baseline() {
    explore(&|| Sim::new(2, 1, vec![Op::PushAndWalk(7, 0)]), &|got, sim| {
        let worker_observed_work = got[0].is_some();
        assert!(
            worker_observed_work || sim.claims > 0,
            "lost wakeup: worker did not observe work and producer did not wake it"
        );
        assert_eq!(got[0], Some(7));
    });
}

#[test]
fn loom_park_unpark_handshake_parked_count_gate() {
    explore(&|| Sim::new(2, 1, vec![Op::Push(7, 0)]), &|got, sim| {
        let worker_observed_work = got[0].is_some();
        assert!(
            worker_observed_work || sim.claims > 0,
            "lost wakeup: worker did not observe work and producer did not wake it"
        );
        assert!(sim.claims <= 1);
        assert_eq!(sim.queue.parked(), 0);
    });
}

/// Workers that go on until the shutdown run every task once, and leave nothing.
#[test]
fn every_task_is_run_once_before_the_workers_end() {
    let setup = || {
        let mut sim = Sim::new(2, 2, vec![Op::Push(7, 0), Op::Push(8, 1), Op::Shutdown]);
        sim.keeps_on = true;
        sim
    };
    explore(&setup, &|got, sim| {
        assert_eq!(got, [None, None]);
        let mut ran = sim.ran.clone();
        ran.sort();
        assert_eq!(ran, vec![7, 8]);
        assert!(sim.waiting.is_empty());
        assert_eq!(sim.queue.parked(), 0);
    });
}

/// A worker that pushes from inside a task and does not come back from it leaves no sleeper beside
/// what it pushed.
#[test]
fn peer_gets_what_a_worker_pushes_and_then_waits_for() {
    let setup = || Sim::new(2, 2, vec![Op::Push(7, 0), Op::PushFrom(7, 8)]);
    explore(&setup, &|got, _| {
        let mut tasks = [got[0].unwrap(), got[1].unwrap()];
        tasks.sort();
        assert_eq!(tasks, [7, 8]);
    });
}
