//! Parking: how a worker goes to sleep and how a producer finds a sleeper to wake.
//!
//! Every worker has a parker of its own, which the caller keeps under a lock together with a
//! condition variable. The locks, the waits and the notifications are the caller's; what to do
//! next, and what each outcome means, is decided here.
//!
//! A wake-up counts only if it was claimed: a sleeper is found by its flag, under the lock of its
//! parker, and the flag is cleared before it is notified.

use crate::queue::{scanned, source_is_in_range, Probe, Queue, QueueView, Scan};
use vstd::prelude::*;

verus! {

/// Scans with a busy wait before them that a worker makes before it gives up its CPU.
pub const SPIN_ROUNDS: u32 = 3;

/// Scans with a yield before them that a worker makes after those.
pub const YIELD_ROUNDS: u32 = 4;

/// One worker's parking place.
#[derive(Clone, Copy, PartialEq, Eq, Structural, Debug)]
pub struct WorkerParker {
    /// The worker sleeps, and nobody has claimed it yet.
    pub blocked: bool,
}

impl WorkerParker {
    /// The parker of a worker that is awake.
    pub fn new() -> (parker: WorkerParker)
        ensures
            !parker.blocked,
    {
        WorkerParker { blocked: false }
    }

    /// Claims the worker if it sleeps. A claimed worker has to be notified.
    pub fn claim(&mut self) -> (claimed: bool)
        ensures
            claimed == old(self).blocked,
            !final(self).blocked,
    {
        let claimed: bool = self.blocked;
        self.blocked = false;
        claimed
    }

    /// Clears the flag, whether it was set or not: for a worker that starts, and for each worker
    /// when the queue shuts down.
    pub fn release(&mut self)
        ensures
            !final(self).blocked,
    {
        self.blocked = false;
    }
}

/// What a producer does next to wake a worker.
#[derive(Clone, Copy, PartialEq, Eq, Structural, Debug)]
pub enum WakeAction {
    /// Look at this worker's parker if its lock is free.
    TryLock(usize),
    /// Wait for this worker's parker and look at it.
    Lock(usize),
    /// The walk is over; a worker was claimed or not.
    Done(bool),
}

/// What a producer saw at a parker.
#[derive(Clone, Copy, PartialEq, Eq, Structural, Debug)]
pub enum Seen {
    /// The lock was held.
    Busy,
    /// The worker did not sleep.
    Awake,
    /// The worker slept and was claimed.
    Claimed,
}

/// A producer's walk over the parkers in search of a sleeper.
///
/// The first pass never waits. If it came by a parker that was held, a second pass waits for each
/// in turn: the holder may be about to sleep and may have missed the producer's push.
#[derive(Clone, Copy, PartialEq, Eq, Structural, Debug)]
pub struct WakeWalk {
    /// Number of parkers.
    pub workers: usize,
    /// The parker at which each pass begins.
    pub start: usize,
    /// Parkers that this pass has gone by.
    pub visited: usize,
    /// This is the second pass.
    pub waiting: bool,
    /// The first pass came by a parker that was held.
    pub contended: bool,
    /// A worker was claimed.
    pub claimed: bool,
}

impl WakeWalk {
    /// The walk is well formed.
    pub open spec fn wf(self) -> bool {
        &&& 0 < self.workers <= usize::MAX / 2 + 1
        &&& self.start < self.workers
        &&& self.visited <= self.workers
        &&& self.waiting ==> self.contended
        &&& self.visited == self.workers ==> self.waiting || !self.contended
    }

    /// The walk that begins at worker `hint`.
    pub open spec fn begun(hint: usize, workers: usize) -> WakeWalk {
        WakeWalk {
            workers,
            start: (hint as int % workers as int) as usize,
            visited: 0,
            waiting: false,
            contended: false,
            claimed: false,
        }
    }

    /// The walk is over.
    pub open spec fn is_done(self) -> bool {
        self.claimed || self.visited == self.workers
    }

    /// The parker that the walk looks at next.
    pub open spec fn place(self) -> int {
        (self.start + self.visited) % (self.workers as int)
    }

    /// What to do next.
    pub open spec fn action(self) -> WakeAction {
        if self.is_done() {
            WakeAction::Done(self.claimed)
        } else if self.waiting {
            WakeAction::Lock(self.place() as usize)
        } else {
            WakeAction::TryLock(self.place() as usize)
        }
    }

    /// The walk after the next parker was seen.
    pub open spec fn after(self, seen: Seen) -> WakeWalk {
        if seen == Seen::Claimed {
            WakeWalk { claimed: true, ..self }
        } else {
            let contended = self.contended || seen == Seen::Busy;
            if self.visited + 1 == self.workers && !self.waiting && contended {
                WakeWalk { visited: 0, waiting: true, contended, ..self }
            } else {
                WakeWalk { visited: (self.visited + 1) as usize, contended, ..self }
            }
        }
    }

    /// Begins a walk over `workers` parkers at worker `hint`.
    pub fn new(hint: usize, workers: usize) -> (walk: WakeWalk)
        requires
            0 < workers <= usize::MAX / 2 + 1,
        ensures
            walk.wf(),
            walk == WakeWalk::begun(hint, workers),
    {
        WakeWalk {
            workers,
            start: hint % workers,
            visited: 0,
            waiting: false,
            contended: false,
            claimed: false,
        }
    }

    /// What the producer has to do next.
    pub fn next(&self) -> (action: WakeAction)
        requires
            self.wf(),
        ensures
            action == self.action(),
            action matches WakeAction::TryLock(i) ==> i < self.workers,
            action matches WakeAction::Lock(i) ==> i < self.workers,
    {
        if self.claimed || self.visited == self.workers {
            WakeAction::Done(self.claimed)
        } else {
            let place: usize = (self.start + self.visited) % self.workers;
            if self.waiting {
                WakeAction::Lock(place)
            } else {
                WakeAction::TryLock(place)
            }
        }
    }

    /// Goes on after the producer saw the parker that it had to look at. A parker that was waited
    /// for is not busy.
    pub fn observe(&mut self, seen: Seen)
        requires
            old(self).wf(),
            !old(self).is_done(),
            old(self).waiting ==> seen != Seen::Busy,
        ensures
            final(self).wf(),
            *final(self) == old(self).after(seen),
    {
        match seen {
            Seen::Claimed => {
                self.claimed = true;
            },
            Seen::Busy => {
                self.contended = true;
                self.advance();
            },
            Seen::Awake => {
                self.advance();
            },
        }
    }

    /// Goes by the parker that was seen, and on to the second pass if one is due.
    fn advance(&mut self)
        requires
            old(self).visited < old(self).workers,
        ensures
            *final(self) == (if old(self).visited + 1 == old(self).workers && !old(self).waiting
                && old(self).contended {
                WakeWalk { visited: 0, waiting: true, ..*old(self) }
            } else {
                WakeWalk { visited: (old(self).visited + 1) as usize, ..*old(self) }
            }),
    {
        self.visited = self.visited + 1;
        if self.visited == self.workers && !self.waiting && self.contended {
            self.visited = 0;
            self.waiting = true;
        }
    }
}

/// Where a worker is in its search for a task.
#[derive(Clone, Copy, PartialEq, Eq, Structural, Debug)]
pub enum PopStage {
    /// About to scan without delay.
    Scanning,
    /// Has waited for the round of this number and is about to scan.
    Spinning(u32),
    /// Holds the lock of its parker and is about to count itself as parked.
    Locked,
    /// Counted as parked, about to scan a last time.
    Armed,
    /// Found nothing in that scan, about to look for the order to shut down.
    Checking,
    /// Found no such order; about to sleep.
    Committed,
    /// Sleeps, or was woken and has not gone on yet.
    Asleep,
    /// Has ended.
    Exited,
}

/// What a worker does next.
#[derive(Clone, Copy, PartialEq, Eq, Structural, Debug)]
pub enum PopAction {
    /// Run the task with this number. The lock of the parker, if held, is to be given up first.
    Run(u64),
    /// End. The lock of the parker is to be given up.
    Exit,
    /// Go on without delay.
    Again,
    /// Wait a little without giving up the CPU, then go on.
    Spin,
    /// Give up the CPU once, then go on.
    Yield,
    /// Take the lock of the worker's own parker, then go on.
    Lock,
    /// Fall asleep on the worker's own parker.
    Sleep,
}

/// A worker's search for its next task.
#[derive(Clone, Copy, PartialEq, Eq, Structural, Debug)]
pub struct PopLoop {
    /// Index of the worker.
    pub idx: usize,
    /// Where the worker is.
    pub stage: PopStage,
}

/// What to do before the scan of round `round`.
pub open spec fn round_action(round: u32) -> PopAction {
    if round < SPIN_ROUNDS {
        PopAction::Spin
    } else {
        PopAction::Yield
    }
}

/// How a scan that was not the last one before sleep leads on.
pub open spec fn after_scan(stage: PopStage, scan: Scan) -> (PopStage, PopAction) {
    match scan.found {
        Some(task) => (PopStage::Scanning, PopAction::Run(task)),
        None => if scan.contended {
            (stage, PopAction::Again)
        } else {
            let round: u32 = match stage {
                PopStage::Spinning(round) => (round + 1) as u32,
                _ => 0,
            };
            if round < SPIN_ROUNDS + YIELD_ROUNDS {
                (PopStage::Spinning(round), round_action(round))
            } else {
                (PopStage::Locked, PopAction::Lock)
            }
        },
    }
}

/// How one step of a worker changes its search and the queue, and what it has to do then.
///
/// A worker counts itself as parked before its last scan, looks for the order to shut down after
/// that scan, and gives the count back when it does not sleep.
pub open spec fn popped(
    pop: PopLoop,
    queue: QueueView,
    pop_after: PopLoop,
    queue_after: QueueView,
    action: PopAction,
) -> bool {
    let idx = pop.idx as int;
    &&& pop_after.idx == pop.idx
    &&& match pop.stage {
        PopStage::Scanning | PopStage::Spinning(_) => exists|scan: Scan|
            {
                &&& #[trigger] scanned(queue, queue_after, idx, scan)
                &&& (pop_after.stage, action) == after_scan(pop.stage, scan)
            },
        PopStage::Locked => {
            &&& queue_after == queue.with_parked(queue.parked.wrapping_add(1))
            &&& pop_after.stage == PopStage::Armed
            &&& action == PopAction::Again
        },
        PopStage::Armed => exists|scan: Scan|
            {
                &&& #[trigger] scanned(queue, queue_after.with_parked(queue.parked), idx, scan)
                &&& match scan.found {
                    Some(task) => {
                        &&& queue_after.parked == queue.parked.wrapping_sub(1)
                        &&& pop_after.stage == PopStage::Scanning
                        &&& action == PopAction::Run(task)
                    },
                    None => {
                        &&& queue_after.parked == queue.parked
                        &&& pop_after.stage == if scan.contended {
                            PopStage::Armed
                        } else {
                            PopStage::Checking
                        }
                        &&& action == PopAction::Again
                    },
                }
            },
        PopStage::Checking => if queue.shutdown {
            &&& queue_after == queue.with_parked(queue.parked.wrapping_sub(1))
            &&& pop_after.stage == PopStage::Exited
            &&& action == PopAction::Exit
        } else {
            &&& queue_after == queue
            &&& pop_after.stage == PopStage::Committed
            &&& action == PopAction::Sleep
        },
        PopStage::Committed | PopStage::Asleep | PopStage::Exited => false,
    }
}

impl PopLoop {
    /// The search of worker `idx`, about to begin.
    pub fn new(idx: usize) -> (pop: PopLoop)
        ensures
            pop == (PopLoop { idx, stage: PopStage::Scanning }),
    {
        PopLoop { idx, stage: PopStage::Scanning }
    }

    /// The worker may take a step now: it is neither about to sleep, nor asleep, nor at its end.
    pub open spec fn can_step(self) -> bool {
        match self.stage {
            PopStage::Committed | PopStage::Asleep | PopStage::Exited => false,
            PopStage::Spinning(round) => round < SPIN_ROUNDS + YIELD_ROUNDS,
            _ => true,
        }
    }

    /// Goes on after a scan that was not the last one before sleep.
    fn go_on(&mut self, scan: Scan) -> (action: PopAction)
        requires
            old(self).can_step(),
        ensures
            final(self).idx == old(self).idx,
            (final(self).stage, action) == after_scan(old(self).stage, scan),
    {
        match scan.found {
            Some(task) => {
                self.stage = PopStage::Scanning;
                PopAction::Run(task)
            },
            None => {
                if scan.contended {
                    return PopAction::Again;
                }
                let round: u32 = match self.stage {
                    PopStage::Spinning(round) => round + 1,
                    _ => 0,
                };
                if round < SPIN_ROUNDS + YIELD_ROUNDS {
                    self.stage = PopStage::Spinning(round);
                    if round < SPIN_ROUNDS {
                        PopAction::Spin
                    } else {
                        PopAction::Yield
                    }
                } else {
                    self.stage = PopStage::Locked;
                    PopAction::Lock
                }
            },
        }
    }

    /// Takes the worker's next step on the queue. The caller has done what the step before asked
    /// for: in the stages that hold the parker's lock, it holds it.
    pub fn step(&mut self, queue: &mut Queue) -> (action: PopAction)
        requires
            old(queue).wf(),
            old(queue)@.registered(old(self).idx as int),
            old(self).can_step(),
        ensures
            final(queue).wf(),
            popped(*old(self), old(queue)@, *final(self), final(queue)@, action),
    {
        match self.stage {
            PopStage::Locked => {
                queue.arm();
                self.stage = PopStage::Armed;
                PopAction::Again
            },
            PopStage::Armed => {
                let scan: Scan = queue.scan(self.idx, Probe::Strict);
                let ghost mid = queue@;
                match scan.found {
                    Some(task) => {
                        queue.disarm();
                        assert(queue@.with_parked(old(queue)@.parked) =~= mid);
                        self.stage = PopStage::Scanning;
                        PopAction::Run(task)
                    },
                    None => {
                        assert(queue@.with_parked(old(queue)@.parked) =~= mid);
                        if !scan.contended {
                            self.stage = PopStage::Checking;
                        }
                        PopAction::Again
                    },
                }
            },
            PopStage::Checking => {
                if queue.is_shutdown() {
                    queue.disarm();
                    self.stage = PopStage::Exited;
                    PopAction::Exit
                } else {
                    self.stage = PopStage::Committed;
                    PopAction::Sleep
                }
            },
            _ => {
                let scan: Scan = queue.scan(self.idx, Probe::Cheap);
                self.go_on(scan)
            },
        }
    }

    /// Marks the worker as asleep. The caller holds the parker's lock and gives it up as it begins
    /// to wait.
    pub fn fall_asleep(&mut self, parker: &mut WorkerParker)
        requires
            old(self).stage == PopStage::Committed,
        ensures
            *final(self) == (PopLoop { stage: PopStage::Asleep, ..*old(self) }),
            final(parker).blocked,
    {
        parker.blocked = true;
        self.stage = PopStage::Asleep;
    }

    /// Goes on after the wait ended, for whatever reason. The caller holds the parker's lock
    /// again and gives it up after this.
    pub fn wake_up(&mut self, parker: &mut WorkerParker, queue: &mut Queue)
        requires
            old(queue).wf(),
            old(self).stage == PopStage::Asleep,
        ensures
            final(queue).wf(),
            final(queue)@ == old(queue)@.with_parked(old(queue)@.parked.wrapping_sub(1)),
            *final(self) == (PopLoop { stage: PopStage::Scanning, ..*old(self) }),
            !final(parker).blocked,
    {
        parker.blocked = false;
        queue.disarm();
        self.stage = PopStage::Scanning;
    }
}

/// A worker's step keeps the number of workers and of shards, which workers have registered, and
/// the order to shut down.
pub proof fn step_keeps_the_shape(
    pop: PopLoop,
    before: QueueView,
    pop_after: PopLoop,
    after: QueueView,
    action: PopAction,
)
    requires
        0 < before.shards.len(),
        before.registered(pop.idx as int),
        popped(pop, before, pop_after, after, action),
    ensures
        after.workers.len() == before.workers.len(),
        after.shards.len() == before.shards.len(),
        after.shutdown == before.shutdown,
        forall|v: int| #[trigger] after.registered(v) == before.registered(v),
{
    let idx = pop.idx as int;
    match pop.stage {
        PopStage::Scanning | PopStage::Spinning(_) => {
            let scan = choose|scan: Scan|
                {
                    &&& #[trigger] scanned(before, after, idx, scan)
                    &&& (pop_after.stage, action) == after_scan(pop.stage, scan)
                };
            lemma_scan_keeps_the_shape(before, after, idx, scan);
        },
        PopStage::Armed => {
            let same = after.with_parked(before.parked);
            let scan = choose|scan: Scan| #[trigger] scanned(before, same, idx, scan);
            lemma_scan_keeps_the_shape(before, same, idx, scan);
            assert forall|v: int| #[trigger] after.registered(v) == before.registered(v) by {
                assert(same.registered(v) == before.registered(v));
            }
        },
        _ => {},
    }
}

proof fn lemma_scan_keeps_the_shape(before: QueueView, after: QueueView, idx: int, scan: Scan)
    requires
        0 < before.shards.len(),
        before.registered(idx),
        scanned(before, after, idx, scan),
    ensures
        after.workers.len() == before.workers.len(),
        after.shards.len() == before.shards.len(),
        after.shutdown == before.shutdown,
        forall|v: int| #[trigger] after.registered(v) == before.registered(v),
{
    if before.deque(idx).len() == 0 && scan.found is Some {
        let (stop, batch) = choose|stop: int, batch: int|
            #![trigger before.stolen(idx, before.source(idx, stop), batch, before.rng_at(idx, stop))]
            {
                &&& 0 <= stop < before.stops()
                &&& 0 <= batch < before.stop_items(idx, stop).len()
                &&& after == before.stolen(
                    idx,
                    before.source(idx, stop),
                    batch,
                    before.rng_at(idx, stop),
                )
            };
        source_is_in_range(before, idx, stop);
    }
}

/// The walk that no one disturbs: every lock is free and no worker falls asleep or wakes up.
pub open spec fn undisturbed(walk: WakeWalk, parkers: Seq<WorkerParker>) -> WakeWalk
    decreases walk.workers - walk.visited,
{
    if walk.claimed || walk.visited >= walk.workers || walk.contended {
        walk
    } else if parkers[walk.place()].blocked {
        walk.after(Seen::Claimed)
    } else {
        undisturbed(walk.after(Seen::Awake), parkers)
    }
}

/// A walk that no one disturbs claims the first sleeper from its start on, and comes to nothing
/// only if nobody sleeps.
pub proof fn undisturbed_walk_claims_first_sleeper(walk: WakeWalk, parkers: Seq<WorkerParker>)
    requires
        walk.wf(),
        parkers.len() == walk.workers,
        !walk.claimed,
        !walk.contended,
        forall|k: int|
            0 <= k < walk.visited ==> !parkers[#[trigger] ((walk.start + k) % (
            walk.workers as int))].blocked,
    ensures
        ({
            let end = undisturbed(walk, parkers);
            &&& end.is_done()
            &&& end.start == walk.start
            &&& end.claimed == exists|i: int|
                0 <= i < parkers.len() && (#[trigger] parkers[i]).blocked
            &&& end.claimed ==> parkers[end.place()].blocked
            &&& forall|k: int|
                0 <= k < end.visited ==> !parkers[#[trigger] ((walk.start + k) % (
                walk.workers as int))].blocked
        }),
    decreases walk.workers - walk.visited,
{
    let n = walk.workers as int;
    if walk.visited == walk.workers {
        assert forall|i: int| 0 <= i < parkers.len() implies !(#[trigger] parkers[i]).blocked by {
            let k: int = if i >= walk.start {
                i - walk.start
            } else {
                i - walk.start + n
            };
            crate::rotation::reduce_once(walk.start + k, n);
            assert((walk.start + k) % n == i);
        }
    } else if parkers[walk.place()].blocked {
        crate::rotation::reduce_once(walk.start + walk.visited, n);
    } else {
        undisturbed_walk_claims_first_sleeper(walk.after(Seen::Awake), parkers);
    }
}

} // verus!
