//! The handshake between producers and workers, in any interleaving of their steps.
//!
//! A world is a queue, the parkers and searches of its workers, and the walks of the producers
//! that still have to wake a worker. Its steps are those of the library: a worker's step on the
//! queue, its falling asleep and waking up, a push, one look of a walk, the order to shut down
//! and the release of one parker after it. The laws below hold in every world that steps lead to.

use crate::park::{
    popped, step_keeps_the_shape, PopAction, PopLoop, PopStage, Seen, WakeWalk, WorkerParker, SPIN_ROUNDS, YIELD_ROUNDS,
};
use crate::producer::{spill_target, Producer};
use crate::queue::{pushed, wake_hint, QueueView, WorkerView};
use vstd::prelude::*;

verus! {

/// A queue with all who take part in its handshake.
pub struct World {
    pub queue: QueueView,
    pub parkers: Seq<WorkerParker>,
    pub pops: Seq<PopLoop>,
    /// The walks of the producers, by producer, until each is over.
    pub walks: Map<int, WakeWalk>,
    /// The next parker to release after the order to shut down.
    pub sweep: Option<int>,
}

/// A step of a world.
pub enum Step {
    /// A worker starts, at first or in the place of one that died while it ran a task.
    Start { worker: int },
    /// A worker takes a step on the queue.
    Work { worker: int, action: PopAction },
    /// A worker that is about to sleep falls asleep.
    FallAsleep { worker: int },
    /// A worker's wait ends, because it was notified or for no reason.
    WakeUp { worker: int },
    /// A thread pushes into a shard.
    PushShard { producer: int, target: int, task: u64 },
    /// A worker that runs a task pushes into its own deque.
    PushLocal { producer: int, worker: int, task: u64 },
    /// A producer looks at the next parker of its walk.
    Look { producer: int, seen: Seen },
    /// A producer whose walk is over goes on.
    Finish { producer: int },
    /// The order to shut down.
    Shutdown,
    /// One more parker is released after that order.
    Release,
}

/// The worker is counted as parked or about to park.
pub open spec fn is_counted(pop: PopLoop) -> bool {
    pop.stage == PopStage::Armed || pop.stage == PopStage::Checking || pop.stage
        == PopStage::Committed || pop.stage == PopStage::Asleep
}

/// How many workers are counted.
pub open spec fn counted(pops: Seq<PopLoop>) -> nat
    decreases pops.len(),
{
    if pops.len() == 0 {
        0
    } else {
        counted(pops.drop_last()) + if is_counted(pops.last()) {
            1nat
        } else {
            0nat
        }
    }
}

impl World {
    /// The world of `workers` workers and a queue of `shards` shards before anything happened.
    pub open spec fn initial(shards: nat, workers: nat) -> World {
        World {
            queue: QueueView::initial(shards, workers),
            parkers: Seq::new(workers, |i: int| WorkerParker { blocked: false }),
            pops: Seq::new(
                workers,
                |i: int| PopLoop { idx: i as usize, stage: PopStage::Scanning },
            ),
            walks: Map::empty(),
            sweep: None,
        }
    }

    /// Worker `i` is sure to hold the lock of its parker.
    pub open spec fn holds(self, i: int) -> bool {
        self.pops[i].stage == PopStage::Armed || self.pops[i].stage == PopStage::Checking
            || self.pops[i].stage == PopStage::Committed
    }

    /// Worker `i` scans no more unless it is woken: it sleeps unclaimed, or has made its last
    /// scan before sleep.
    pub open spec fn is_dormant(self, i: int) -> bool {
        self.pops[i].stage == PopStage::Checking || self.pops[i].stage == PopStage::Committed || (
        self.pops[i].stage == PopStage::Asleep && self.parkers[i].blocked)
    }

    /// Some worker is awake: it searches, runs a task, or was claimed and is about to wake up. It
    /// will scan the queue again before it sleeps, if it comes back from the task that it runs.
    pub open spec fn someone_awake(self) -> bool {
        exists|i: int| 0 <= i < self.pops.len() && !#[trigger] self.is_dormant(i)
    }

    /// Some producer still owes a wake-up: its walk is not over.
    pub open spec fn wake_up_owed(self) -> bool {
        exists|p: int| #[trigger] self.walks.contains_key(p) && !self.walks[p].is_done()
    }

    /// What a look at parker `i` can see. A lock that is tried may be found held at any time; one
    /// that a worker holds for sure cannot be had.
    pub open spec fn can_see(self, i: int, waiting: bool, seen: Seen) -> bool {
        match seen {
            Seen::Busy => !waiting,
            Seen::Awake => !self.holds(i) && !self.parkers[i].blocked,
            Seen::Claimed => !self.holds(i) && self.parkers[i].blocked,
        }
    }

    /// Worker `i` is at `stage`.
    pub open spec fn with_stage(self, i: int, stage: PopStage) -> World {
        World { pops: self.pops.update(i, PopLoop { stage, ..self.pops[i] }), ..self }
    }

    /// Worker `i`'s parker says `blocked`.
    pub open spec fn with_blocked(self, i: int, blocked: bool) -> World {
        World { parkers: self.parkers.update(i, WorkerParker { blocked }), ..self }
    }

    /// A producer's push left the queue as `queue`; its wake-up, if one is due, begins at `hint`.
    pub open spec fn with_push(self, producer: int, queue: QueueView, hint: usize) -> World {
        World {
            queue,
            walks: match wake_hint(self.queue, hint) {
                Some(first) => self.walks.insert(
                    producer,
                    WakeWalk::begun(first, self.pops.len() as usize),
                ),
                None => self.walks,
            },
            ..self
        }
    }
}

/// One step leads from `w` to `n`.
pub open spec fn steps(w: World, n: World, step: Step) -> bool {
    let workers = w.pops.len();
    match step {
        Step::Start { worker } => {
            &&& 0 <= worker < workers
            &&& w.pops[worker].stage == PopStage::Scanning
            &&& n == World {
                queue: w.queue.with_worker(worker, WorkerView::fresh(worker)),
                ..w.with_blocked(worker, false)
            }
        },
        Step::Work { worker, action } => {
            &&& 0 <= worker < workers
            &&& w.queue.registered(worker)
            &&& w.pops[worker].can_step()
            &&& popped(w.pops[worker], w.queue, n.pops[worker], n.queue, action)
            &&& n == World {
                queue: n.queue,
                pops: w.pops.update(worker, n.pops[worker]),
                ..w
            }
        },
        Step::FallAsleep { worker } => {
            &&& 0 <= worker < workers
            &&& w.pops[worker].stage == PopStage::Committed
            &&& n == w.with_stage(worker, PopStage::Asleep).with_blocked(worker, true)
        },
        Step::WakeUp { worker } => {
            &&& 0 <= worker < workers
            &&& w.pops[worker].stage == PopStage::Asleep
            &&& n == World {
                queue: w.queue.with_parked(w.queue.parked.wrapping_sub(1)),
                ..w.with_stage(worker, PopStage::Scanning).with_blocked(worker, false)
            }
        },
        Step::PushShard { producer, target, task } => {
            &&& !w.walks.contains_key(producer)
            &&& 0 <= target < w.queue.shards.len()
            &&& n == w.with_push(producer, w.queue.push_shard(target, task), target as usize)
        },
        Step::PushLocal { producer, worker, task } => {
            &&& !w.walks.contains_key(producer)
            &&& w.queue.registered(worker)
            &&& w.pops[worker].stage == PopStage::Scanning
            &&& n == w.with_push(
                producer,
                w.queue.push_local(worker, task),
                (worker as usize).wrapping_add(1),
            )
        },
        Step::Look { producer, seen } => {
            let walk = w.walks[producer];
            let looked = World { walks: w.walks.insert(producer, walk.after(seen)), ..w };
            &&& w.walks.contains_key(producer)
            &&& !walk.is_done()
            &&& w.can_see(walk.place(), walk.waiting, seen)
            &&& n == if seen == Seen::Claimed {
                looked.with_blocked(walk.place(), false)
            } else {
                looked
            }
        },
        Step::Finish { producer } => {
            &&& w.walks.contains_key(producer)
            &&& w.walks[producer].is_done()
            &&& n == World { walks: w.walks.remove(producer), ..w }
        },
        Step::Shutdown => {
            &&& w.sweep is None
            &&& n == World {
                queue: QueueView { shutdown: true, ..w.queue },
                sweep: Some(0),
                ..w
            }
        },
        Step::Release => {
            &&& w.sweep is Some
            &&& w.sweep->0 < workers
            &&& !w.holds(w.sweep->0)
            &&& n == World { sweep: Some(w.sweep->0 + 1), ..w.with_blocked(w.sweep->0, false) }
        },
    }
}

/// A walk that cannot end without a claim while all workers stay dormant: it has gone by nobody
/// in this pass, or will make another.
pub open spec fn is_sure(walk: WakeWalk) -> bool {
    &&& !walk.claimed
    &&& if walk.waiting {
        walk.visited == 0
    } else {
        walk.visited == 0 || walk.contended
    }
}

impl World {
    /// What holds in every world that steps lead to.
    pub open spec fn inv(self) -> bool {
        &&& 0 < self.pops.len() <= usize::MAX / 2 + 1
        &&& self.parkers.len() == self.pops.len()
        &&& self.queue.workers.len() == self.pops.len()
        &&& 0 < self.queue.shards.len()
        &&& forall|i: int|
            0 <= i < self.pops.len() ==> (#[trigger] self.pops[i]).idx == i
        // A worker searches only after it has registered.
        &&& forall|i: int|
            0 <= i < self.pops.len() && (#[trigger] self.pops[i]).stage != PopStage::Scanning
                ==> self.queue.registered(i)
        // A worker waits for a bounded number of rounds before it sleeps.
        &&& forall|i: int|
            0 <= i < self.pops.len() ==> ((#[trigger] self.pops[i]).stage matches
                PopStage::Spinning(round) ==> round < SPIN_ROUNDS + YIELD_ROUNDS)
        // Finitely many producers are on a walk.
        &&& self.walks.dom().finite()
        // A worker ends only after the order to shut down.
        &&& forall|i: int|
            0 <= i < self.pops.len() && (#[trigger] self.pops[i]).stage == PopStage::Exited
                ==> self.queue.shutdown
        // The flag of a parker is set only while its worker sleeps.
        &&& forall|i: int|
            0 <= i < self.pops.len() && (#[trigger] self.parkers[i]).blocked ==> self.pops[i].stage
                == PopStage::Asleep
        // The counter counts the workers that are parked or about to park.
        &&& self.queue.parked == counted(self.pops)
        &&& forall|p: int|
            #[trigger] self.walks.contains_key(p) ==> self.walks[p].wf() && self.walks[p].workers
                == self.pops.len()
        // A task that waits while nobody is awake has a producer that will not miss.
        &&& !self.queue.is_empty() && !self.queue.shutdown && !self.someone_awake() ==> exists|
            p: int,
        | #[trigger]
            self.walks.contains_key(p) && is_sure(self.walks[p])
        // A parker that was released stays so.
        &&& self.sweep is Some == self.queue.shutdown
        &&& self.sweep is Some ==> 0 <= self.sweep->0 <= self.pops.len()
        &&& self.sweep is Some ==> forall|i: int|
            0 <= i < self.sweep->0 ==> (#[trigger] self.pops[i]).stage != PopStage::Committed
                && !self.parkers[i].blocked
    }
}

pub(crate) proof fn lemma_counted_bound(pops: Seq<PopLoop>)
    ensures
        counted(pops) <= pops.len(),
        (forall|i: int| 0 <= i < pops.len() ==> is_counted(#[trigger] pops[i])) ==> counted(pops)
            == pops.len(),
        counted(pops) == 0 ==> forall|i: int|
            0 <= i < pops.len() ==> !is_counted(#[trigger] pops[i]),
    decreases pops.len(),
{
    if pops.len() > 0 {
        lemma_counted_bound(pops.drop_last());
        assert forall|i: int| counted(pops) == 0 && 0 <= i < pops.len() implies !is_counted(
            #[trigger] pops[i],
        ) by {
            if i < pops.len() - 1 {
                assert(pops[i] == pops.drop_last()[i]);
            }
        }
    }
}

proof fn lemma_counted_update(pops: Seq<PopLoop>, i: int, pop: PopLoop)
    requires
        0 <= i < pops.len(),
    ensures
        counted(pops.update(i, pop)) == counted(pops) - (if is_counted(pops[i]) {
            1int
        } else {
            0
        }) + (if is_counted(pop) {
            1int
        } else {
            0
        }),
    decreases pops.len(),
{
    let next = pops.update(i, pop);
    if i == pops.len() - 1 {
        assert(next.drop_last() =~= pops.drop_last());
    } else {
        assert(next.drop_last() =~= pops.drop_last().update(i, pop));
        lemma_counted_update(pops.drop_last(), i, pop);
    }
}

/// The invariant holds at the start.
pub proof fn initial_world_is_sound(shards: nat, workers: nat)
    requires
        0 < shards,
        0 < workers <= usize::MAX / 2 + 1,
    ensures
        World::initial(shards, workers).inv(),
{
    let w = World::initial(shards, workers);
    assert(w.queue.is_empty());
    lemma_initial_counted(w.pops);
}

proof fn lemma_initial_counted(pops: Seq<PopLoop>)
    requires
        forall|i: int| 0 <= i < pops.len() ==> !is_counted(#[trigger] pops[i]),
    ensures
        counted(pops) == 0,
    decreases pops.len(),
{
    if pops.len() > 0 {
        lemma_initial_counted(pops.drop_last());
    }
}

/// A worker's step keeps the number of workers and shards, the order to shut down, and an empty
/// queue empty.
proof fn lemma_work_frame(
    pop: PopLoop,
    queue: QueueView,
    pop_after: PopLoop,
    queue_after: QueueView,
    action: PopAction,
)
    requires
        0 < queue.shards.len(),
        queue.registered(pop.idx as int),
        pop.can_step(),
        popped(pop, queue, pop_after, queue_after, action),
    ensures
        queue_after.workers.len() == queue.workers.len(),
        queue_after.shards.len() == queue.shards.len(),
        queue_after.shutdown == queue.shutdown,
        pop_after.idx == pop.idx,
        pop.stage == PopStage::Armed && pop_after.stage == PopStage::Checking ==> queue.is_empty()
            && queue_after.is_empty(),
        pop_after.stage == PopStage::Checking ==> pop.stage == PopStage::Armed,
        pop_after.stage == PopStage::Committed ==> pop.stage == PopStage::Checking
            && !queue.shutdown && queue_after == queue,
        pop_after.stage != PopStage::Asleep,
        pop_after.stage == PopStage::Exited ==> queue.shutdown,
        pop_after.can_step() || pop_after.stage == PopStage::Committed || pop_after.stage
            == PopStage::Exited,
        pop.stage == PopStage::Checking ==> queue_after == queue || queue.shutdown,
        is_counted(pop) && is_counted(pop_after) ==> queue_after.parked == queue.parked,
        !is_counted(pop) && !is_counted(pop_after) ==> queue_after.parked == queue.parked,
        is_counted(pop) && !is_counted(pop_after) ==> queue_after.parked
            == queue.parked.wrapping_sub(1),
        !is_counted(pop) && is_counted(pop_after) ==> queue_after.parked
            == queue.parked.wrapping_add(1),
{
    if pop.stage == PopStage::Armed && pop_after.stage == PopStage::Checking {
        assert forall|v: int| 0 <= v < queue_after.workers.len() implies (
        #[trigger] queue_after.deque(v)).len() == 0 by {
            assert(queue.deque(v).len() == 0);
        }
    }
}

proof fn lemma_start_keeps(w: World, n: World, worker: int)
    requires
        w.inv(),
        steps(w, n, Step::Start { worker }),
    ensures
        n.inv(),
{
    assert(!n.is_dormant(worker));
    assert(n.pops =~= w.pops);
}

proof fn lemma_work_keeps(w: World, n: World, worker: int, action: PopAction)
    requires
        w.inv(),
        steps(w, n, Step::Work { worker, action }),
    ensures
        n.inv(),
{
    lemma_work_frame(w.pops[worker], w.queue, n.pops[worker], n.queue, action);
    step_keeps_the_shape(w.pops[worker], w.queue, n.pops[worker], n.queue, action);
    lemma_counted_update(w.pops, worker, n.pops[worker]);
    lemma_counted_bound(w.pops);
    lemma_counted_bound(n.pops);
    if !n.is_dormant(worker) {
        assert(n.someone_awake());
    } else if n.pops[worker].stage == PopStage::Committed {
        assert(w.is_dormant(worker));
        if !n.someone_awake() {
            assert forall|i: int| 0 <= i < w.pops.len() implies #[trigger] w.is_dormant(i) by {
                assert(n.is_dormant(i));
            }
            assert(!w.someone_awake());
            if !n.queue.is_empty() && !n.queue.shutdown {
                let p = choose|p: int| #[trigger] w.walks.contains_key(p) && is_sure(w.walks[p]);
                assert(n.walks.contains_key(p) && is_sure(n.walks[p]));
            }
        }
    } else {
        assert(n.queue.is_empty());
    }
}

proof fn lemma_fall_asleep_keeps(w: World, n: World, worker: int)
    requires
        w.inv(),
        steps(w, n, Step::FallAsleep { worker }),
    ensures
        n.inv(),
{
    lemma_counted_update(w.pops, worker, n.pops[worker]);
    if !n.someone_awake() {
        assert forall|i: int| 0 <= i < w.pops.len() implies #[trigger] w.is_dormant(i) by {
            assert(n.is_dormant(i));
        }
        assert(!w.someone_awake());
        if !n.queue.is_empty() && !n.queue.shutdown {
            let p = choose|p: int| #[trigger] w.walks.contains_key(p) && is_sure(w.walks[p]);
            assert(n.walks.contains_key(p) && is_sure(n.walks[p]));
        }
    }
}

proof fn lemma_wake_up_keeps(w: World, n: World, worker: int)
    requires
        w.inv(),
        steps(w, n, Step::WakeUp { worker }),
    ensures
        n.inv(),
{
    lemma_counted_update(w.pops, worker, n.pops[worker]);
    lemma_counted_bound(n.pops);
    assert(!n.is_dormant(worker));
}

proof fn lemma_push_keeps(w: World, n: World, producer: int, queue: QueueView, hint: usize)
    requires
        w.inv(),
        !w.walks.contains_key(producer),
        queue.workers.len() == w.queue.workers.len(),
        queue.shards.len() == w.queue.shards.len(),
        queue.parked == w.queue.parked,
        queue.shutdown == w.queue.shutdown,
        forall|v: int| #[trigger] queue.registered(v) == w.queue.registered(v),
        n == w.with_push(producer, queue, hint),
    ensures
        n.inv(),
{
    lemma_counted_bound(w.pops);
    if !n.someone_awake() {
        assert forall|i: int| 0 <= i < w.pops.len() implies is_counted(#[trigger] w.pops[i]) by {
            assert(n.is_dormant(i));
        }
        assert(w.queue.parked > 0);
        assert(n.walks.contains_key(producer) && is_sure(n.walks[producer]));
    }
}

proof fn lemma_look_keeps(w: World, n: World, producer: int, seen: Seen)
    requires
        w.inv(),
        steps(w, n, Step::Look { producer, seen }),
    ensures
        n.inv(),
{
    let walk = w.walks[producer];
    let place = walk.place();
    assert(0 <= place < w.pops.len());
    assert(n.walks[producer].wf());
    if seen == Seen::Claimed {
        assert(!n.is_dormant(place));
    }
    if !n.someone_awake() {
        assert forall|i: int| 0 <= i < w.pops.len() implies #[trigger] w.is_dormant(i) by {
            assert(n.is_dormant(i));
        }
        assert(!w.someone_awake());
        assert(w.is_dormant(place));
        assert(seen == Seen::Busy);
        if !n.queue.is_empty() && !n.queue.shutdown {
            let p = choose|p: int| #[trigger] w.walks.contains_key(p) && is_sure(w.walks[p]);
            assert(n.walks.contains_key(p) && is_sure(n.walks[p]));
        }
    }
}

proof fn lemma_finish_keeps(w: World, n: World, producer: int)
    requires
        w.inv(),
        steps(w, n, Step::Finish { producer }),
    ensures
        n.inv(),
{
    if !n.someone_awake() {
        assert forall|i: int| 0 <= i < w.pops.len() implies #[trigger] w.is_dormant(i) by {
            assert(n.is_dormant(i));
        }
        assert(!w.someone_awake());
        if !n.queue.is_empty() && !n.queue.shutdown {
            let p = choose|p: int| #[trigger] w.walks.contains_key(p) && is_sure(w.walks[p]);
            assert(n.walks.contains_key(p) && is_sure(n.walks[p]));
        }
    }
}

/// Every step keeps the invariant, so it holds in every world that steps lead to.
pub proof fn steps_keep_the_invariant(w: World, n: World, step: Step)
    requires
        w.inv(),
        steps(w, n, step),
    ensures
        n.inv(),
{
    match step {
        Step::Start { worker } => lemma_start_keeps(w, n, worker),
        Step::Work { worker, action } => lemma_work_keeps(w, n, worker, action),
        Step::FallAsleep { worker } => lemma_fall_asleep_keeps(w, n, worker),
        Step::WakeUp { worker } => lemma_wake_up_keeps(w, n, worker),
        Step::PushShard { producer, target, task } => lemma_push_keeps(
            w,
            n,
            producer,
            w.queue.push_shard(target, task),
            target as usize,
        ),
        Step::PushLocal { producer, worker, task } => lemma_push_keeps(
            w,
            n,
            producer,
            w.queue.push_local(worker, task),
            (worker as usize).wrapping_add(1),
        ),
        Step::Look { producer, seen } => lemma_look_keeps(w, n, producer, seen),
        Step::Finish { producer } => lemma_finish_keeps(w, n, producer),
        Step::Shutdown => {},
        Step::Release => {},
    }
}

/// The step that a push is: into the deque of the worker that pushes, or into a shard.
pub open spec fn push_step(
    queue: QueueView,
    pusher: Producer,
    pusher_after: Producer,
    this: usize,
    task: u64,
    producer: int,
) -> Step {
    let shards = queue.shards.len() as int;
    match pusher.worker_of(this) {
        Some(idx) => Step::PushLocal { producer, worker: idx as int, task },
        None => Step::PushShard {
            producer,
            target: if shards == 1 {
                0
            } else {
                spill_target(
                    pusher_after.spill,
                    pusher_after.shard_hint->0 as int % shards,
                    shards,
                )
            },
            task,
        },
    }
}

/// A push as the queue makes it is a step of the world, and the walk that its caller has to begin
/// is the one that the step begins. A worker pushes while it runs a task, between two searches.
pub proof fn push_is_a_step(
    w: World,
    after: QueueView,
    pusher: Producer,
    pusher_after: Producer,
    this: usize,
    task: u64,
    wake: Option<usize>,
    producer: int,
)
    requires
        w.inv(),
        !w.walks.contains_key(producer),
        pusher.worker_of(this) matches Some(idx) ==> w.queue.registered(idx as int)
            && w.pops[idx as int].stage == PopStage::Scanning,
        pushed(w.queue, after, pusher, pusher_after, this, task, wake),
    ensures
        steps(
            w,
            World {
                queue: after,
                walks: match wake {
                    Some(first) => w.walks.insert(
                        producer,
                        WakeWalk::begun(first, w.pops.len() as usize),
                    ),
                    None => w.walks,
                },
                ..w
            },
            push_step(w.queue, pusher, pusher_after, this, task, producer),
        ),
{
}

/// While a task waits, not all workers are asleep for good: some worker is awake, perhaps inside a
/// task, or a producer that still owes a wake-up is on its way. No worker has ended.
pub proof fn some_worker_stays_awake(w: World)
    requires
        w.inv(),
        !w.queue.is_empty(),
        !w.queue.shutdown,
    ensures
        w.someone_awake() || w.wake_up_owed(),
        forall|i: int|
            0 <= i < w.pops.len() ==> (#[trigger] w.pops[i]).stage != PopStage::Exited,
{
    if !w.someone_awake() {
        let p = choose|p: int| #[trigger] w.walks.contains_key(p) && is_sure(w.walks[p]);
        assert(!w.walks[p].is_done());
    }
}

/// While nobody is awake, not even inside a task, a producer that owes a wake-up for a waiting task
/// cannot come to the end of its walk without a claim.
pub proof fn owed_wake_up_is_paid(w: World, n: World, step: Step)
    requires
        w.inv(),
        steps(w, n, step),
        !n.queue.is_empty(),
        !n.queue.shutdown,
        !n.wake_up_owed(),
    ensures
        n.someone_awake(),
{
    steps_keep_the_invariant(w, n, step);
    some_worker_stays_awake(n);
}

/// When the counter of parked workers is zero, nobody sleeps: a push that reads zero owes no
/// wake-up.
pub proof fn zero_parked_means_nobody_sleeps(w: World, i: int)
    requires
        w.inv(),
        w.queue.parked == 0,
        0 <= i < w.pops.len(),
    ensures
        !w.is_dormant(i),
        !w.parkers[i].blocked,
{
    lemma_counted_bound(w.pops);
    assert(!is_counted(w.pops[i]));
}

/// Once every parker was released after the order to shut down, no worker sleeps and none will
/// fall asleep.
pub proof fn shutdown_leaves_nobody_asleep(w: World, i: int)
    requires
        w.inv(),
        w.sweep == Some(w.pops.len() as int),
        0 <= i < w.pops.len(),
    ensures
        !w.parkers[i].blocked,
        w.pops[i].stage != PopStage::Committed,
{
    assert(w.pops[i].stage != PopStage::Committed);
}

/// The release of the parkers, once complete, stays so.
pub proof fn released_parkers_stay_released(w: World, n: World, step: Step)
    requires
        w.inv(),
        steps(w, n, step),
        w.sweep == Some(w.pops.len() as int),
    ensures
        n.sweep == Some(n.pops.len() as int),
        forall|i: int| 0 <= i < n.pops.len() ==> !(#[trigger] n.parkers[i]).blocked,
{
    steps_keep_the_invariant(w, n, step);
    assert forall|i: int| 0 <= i < n.pops.len() implies !(#[trigger] n.parkers[i]).blocked by {
        assert(n.pops[i].stage != PopStage::Committed);
    }
}

/// A worker gives up its search only after it saw the queue empty: what waits when the order to
/// shut down comes is taken first.
pub proof fn last_scan_sees_empty_queue(
    pop: PopLoop,
    queue: QueueView,
    pop_after: PopLoop,
    queue_after: QueueView,
    action: PopAction,
)
    requires
        0 < queue.shards.len(),
        queue.registered(pop.idx as int),
        pop.can_step(),
        popped(pop, queue, pop_after, queue_after, action),
    ensures
        pop_after.stage == PopStage::Checking ==> queue.is_empty(),
        action == PopAction::Exit ==> pop.stage == PopStage::Checking && queue.shutdown,
        action == PopAction::Sleep ==> pop.stage == PopStage::Checking && !queue.shutdown,
{
    lemma_work_frame(pop, queue, pop_after, queue_after, action);
}

/// A sleeper is claimed by one producer only: after the claim its parker shows no sleeper, so
/// that the next producer goes on to another worker.
pub proof fn claim_is_exclusive(w: World, n: World, producer: int, waiting: bool)
    requires
        w.inv(),
        steps(w, n, Step::Look { producer, seen: Seen::Claimed }),
    ensures
        w.is_dormant(w.walks[producer].place()),
        !n.is_dormant(w.walks[producer].place()),
        !n.can_see(w.walks[producer].place(), waiting, Seen::Claimed),
{
    assert(w.parkers[w.walks[producer].place()].blocked);
}

} // verus!
