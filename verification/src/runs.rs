//! Whole runs of producers and workers, in any interleaving of their steps.
//!
//! A run is a sequence of worlds in which each step of the handshake leads from one to the next.
//! The laws below say what has become of every task that was pushed in it, and that a run to which
//! nothing is added comes to rest, as long as every task comes to its end and no worker loses its
//! steals, or wakes up for no reason, without end.

use crate::conservation::{
    empty_means_no_tasks, lemma_local_push_adds, lemma_shard_push_adds, restart_abandons_one_deque,
    step_takes_what_it_runs,
};
use crate::handshake::{
    initial_world_is_sound, last_scan_sees_empty_queue, some_worker_stays_awake, steps,
    steps_keep_the_invariant, Step, World,
};
use crate::park::{
    after_scan, popped, step_keeps_the_shape, PopAction, PopLoop, PopStage, Seen, WakeWalk,
    WorkerParker,
};
use crate::queue::{
    scanned, source_is_in_range, walk_misses_nothing, QueueView, Scan, WorkerView,
};
use vstd::multiset::Multiset;
use vstd::prelude::*;

verus! {

broadcast use {vstd::multiset::group_multiset_axioms, vstd::seq_lib::group_to_multiset_ensures};

/// A run: the worlds that it leads through, and the steps between them.
pub struct Run {
    pub worlds: Seq<World>,
    pub steps: Seq<Step>,
}

impl Run {
    /// Each step leads from one world to the next.
    pub open spec fn is_run(self) -> bool {
        &&& self.worlds.len() == self.steps.len() + 1
        &&& forall|i: int|
            0 <= i < self.steps.len() ==> steps(
                self.worlds[i],
                self.worlds[i + 1],
                #[trigger] self.steps[i],
            )
    }

    /// The run begins with a new queue of `shards` shards and `workers` workers.
    pub open spec fn begins_new(self, shards: nat, workers: nat) -> bool {
        &&& self.is_run()
        &&& 0 < shards
        &&& 0 < workers <= usize::MAX / 2 + 1
        &&& self.worlds[0] == World::initial(shards, workers)
    }

    /// The run without its last step.
    pub open spec fn shorter(self) -> Run {
        Run { worlds: self.worlds.drop_last(), steps: self.steps.drop_last() }
    }

    /// The world that the run leads to.
    pub open spec fn end(self) -> World {
        self.worlds.last()
    }

    /// The tasks that were pushed.
    pub open spec fn pushed(self) -> Multiset<u64>
        decreases self.steps.len(),
    {
        if self.steps.len() == 0 {
            Multiset::empty()
        } else {
            match self.steps.last() {
                Step::PushShard { task, .. } => self.shorter().pushed().insert(task),
                Step::PushLocal { task, .. } => self.shorter().pushed().insert(task),
                _ => self.shorter().pushed(),
            }
        }
    }

    /// The tasks that workers were told to run.
    pub open spec fn ran(self) -> Multiset<u64>
        decreases self.steps.len(),
    {
        if self.steps.len() == 0 {
            Multiset::empty()
        } else {
            match self.steps.last() {
                Step::Work { action: PopAction::Run(task), .. } => self.shorter().ran().insert(
                    task,
                ),
                _ => self.shorter().ran(),
            }
        }
    }

    /// The tasks that were left in the deques of workers that died.
    pub open spec fn abandoned(self) -> Multiset<u64>
        decreases self.steps.len(),
    {
        if self.steps.len() == 0 {
            Multiset::empty()
        } else {
            match self.steps.last() {
                Step::Start { worker } => self.shorter().abandoned().add(
                    self.shorter().end().queue.deque(worker).to_multiset(),
                ),
                _ => self.shorter().abandoned(),
            }
        }
    }
}

pub(crate) proof fn lemma_shorter(run: Run)
    requires
        run.is_run(),
        run.steps.len() > 0,
    ensures
        run.shorter().is_run(),
        run.shorter().worlds[0] == run.worlds[0],
        steps(run.shorter().end(), run.end(), run.steps.last()),
{
    let n = run.steps.len() - 1;
    assert(steps(run.worlds[n], run.worlds[n + 1], run.steps[n]));
    assert forall|i: int| 0 <= i < n implies steps(
        run.shorter().worlds[i],
        run.shorter().worlds[i + 1],
        #[trigger] run.shorter().steps[i],
    ) by {
        assert(steps(run.worlds[i], run.worlds[i + 1], run.steps[i]));
    }
}

/// The invariant of the handshake holds wherever a run leads.
pub proof fn run_keeps_the_invariant(run: Run)
    requires
        run.is_run(),
        run.worlds[0].inv(),
    ensures
        run.end().inv(),
    decreases run.steps.len(),
{
    if run.steps.len() > 0 {
        lemma_shorter(run);
        run_keeps_the_invariant(run.shorter());
        steps_keep_the_invariant(run.shorter().end(), run.end(), run.steps.last());
    }
}

/// The tasks of a queue do not depend on its counter of parked workers.
proof fn lemma_parked_is_no_task(queue: QueueView, parked: usize)
    ensures
        queue.with_parked(parked).tasks() == queue.tasks(),
{
    assert(queue.with_parked(parked).deques() =~= queue.deques());
}

pub(crate) proof fn lemma_step_account(w: World, n: World, step: Step)
    requires
        w.inv(),
        steps(w, n, step),
    ensures
        match step {
            Step::PushShard { task, .. } => n.queue.tasks() == w.queue.tasks().insert(task),
            Step::PushLocal { task, .. } => n.queue.tasks() == w.queue.tasks().insert(task),
            Step::Work { action: PopAction::Run(task), .. } => w.queue.tasks()
                == n.queue.tasks().insert(task),
            Step::Start { worker } => n.queue.tasks().add(w.queue.deque(worker).to_multiset())
                == w.queue.tasks(),
            _ => n.queue.tasks() == w.queue.tasks(),
        },
{
    match step {
        Step::PushShard { target, task, .. } => lemma_shard_push_adds(w.queue, target, task),
        Step::PushLocal { worker, task, .. } => lemma_local_push_adds(w.queue, worker, task),
        Step::Work { worker, action } => {
            assert(w.pops[worker].idx == worker);
            step_takes_what_it_runs(w.pops[worker], w.queue, n.pops[worker], n.queue, action);
        },
        Step::Start { worker } => restart_abandons_one_deque(w.queue, worker),
        Step::WakeUp { .. } => lemma_parked_is_no_task(
            w.queue,
            w.queue.parked.wrapping_sub(1),
        ),
        Step::Shutdown => {
            assert(n.queue.deques() =~= w.queue.deques());
        },
        _ => {},
    }
}

/// Every task is accounted for: what was pushed in a run is what was run, what waits, and what was
/// abandoned by workers that died.
pub proof fn every_task_is_accounted_for(run: Run, shards: nat, workers: nat)
    requires
        run.begins_new(shards, workers),
    ensures
        run.end().inv(),
        run.pushed() == run.ran().add(run.abandoned()).add(run.end().queue.tasks()),
    decreases run.steps.len(),
{
    initial_world_is_sound(shards, workers);
    run_keeps_the_invariant(run);
    if run.steps.len() == 0 {
        let queue = QueueView::initial(shards, workers);
        assert(queue.is_empty());
        empty_means_no_tasks(queue);
        assert(queue.tasks() =~= Multiset::empty());
        assert(run.pushed() =~= run.ran().add(run.abandoned()).add(queue.tasks()));
    } else {
        lemma_shorter(run);
        let before = run.shorter();
        run_keeps_the_invariant(before);
        every_task_is_accounted_for(before, shards, workers);
        let w = before.end().queue.tasks();
        let n = run.end().queue.tasks();
        lemma_step_account(before.end(), run.end(), run.steps.last());
        assert forall|t: u64| #[trigger]
            run.pushed().count(t) == run.ran().add(run.abandoned()).add(n).count(t) by {
            assert(before.pushed().count(t) == before.ran().count(t) + before.abandoned().count(t)
                + w.count(t));
            if let Step::Start { worker } = run.steps.last() {
                assert(n.add(before.end().queue.deque(worker).to_multiset()).count(t) == w.count(
                    t,
                ));
            }
        }
        assert(run.pushed() =~= run.ran().add(run.abandoned()).add(n));
    }
}

/// No task is run more often than it was pushed: one that was pushed once is run at most once.
pub proof fn no_task_is_run_twice(run: Run, shards: nat, workers: nat, task: u64)
    requires
        run.begins_new(shards, workers),
    ensures
        run.ran().count(task) <= run.pushed().count(task),
{
    every_task_is_accounted_for(run, shards, workers);
}

/// How many steps a worker is from sleep, or from its end, while it finds nothing.
pub open spec fn rank(pop: PopLoop, parker: WorkerParker) -> nat {
    match pop.stage {
        PopStage::Exited => 0,
        PopStage::Asleep => if parker.blocked {
            0
        } else {
            13
        },
        PopStage::Committed => 1,
        PopStage::Checking => 2,
        PopStage::Armed => 3,
        PopStage::Locked => 4,
        PopStage::Spinning(round) => if round < 7 {
            (11 - round) as nat
        } else {
            5
        },
        PopStage::Scanning => 12,
    }
}

/// The most parkers that a walk still looks at.
pub open spec fn looks_left(walk: WakeWalk) -> nat {
    if walk.is_done() {
        0
    } else if walk.waiting {
        (walk.workers - walk.visited) as nat
    } else {
        (2 * walk.workers - walk.visited) as nat
    }
}

/// What a walk adds to the distance from rest: each look may wake a worker.
pub open spec fn walk_cost(walk: WakeWalk) -> nat {
    1 + 20 * looks_left(walk)
}

/// What all walks add to the distance from rest.
pub open spec fn walks_cost(walks: Map<int, WakeWalk>) -> nat
    decreases walks.dom().len(),
{
    if walks.dom().finite() && walks.dom().len() > 0 {
        let p = walks.dom().choose();
        walk_cost(walks[p]) + walks_cost(walks.remove(p))
    } else {
        0
    }
}

impl World {
    /// What worker `i` adds to the distance from rest; one that has not started has that before
    /// it, too.
    pub open spec fn rank_of(self, i: int) -> nat {
        rank(self.pops[i], self.parkers[i]) + if self.queue.registered(i) {
            0nat
        } else {
            1nat
        }
    }

    /// What the first `count` workers add to the distance from rest.
    pub open spec fn ranks(self, count: nat) -> nat
        decreases count,
    {
        if count == 0 {
            0
        } else {
            self.ranks((count - 1) as nat) + self.rank_of(count - 1)
        }
    }

    /// What the release of the parkers adds to the distance from rest.
    pub open spec fn sweep_cost(self) -> nat {
        match self.sweep {
            Some(next) => (20 * (self.pops.len() - next)) as nat,
            None => 0,
        }
    }

    /// The most steps that the world takes before it rests, if nothing is added to it.
    pub open spec fn distance(self) -> nat {
        20 * self.queue.tasks().len() + self.ranks(self.pops.len()) + walks_cost(self.walks)
            + self.sweep_cost()
    }

    /// Nobody has anything to do: every worker sleeps unclaimed or has ended, no producer is on a
    /// walk, and no parker is to be released.
    pub open spec fn at_rest(self) -> bool {
        &&& forall|i: int|
            0 <= i < self.pops.len() ==> (#[trigger] self.pops[i]).stage == PopStage::Exited || (
            self.pops[i].stage == PopStage::Asleep && self.parkers[i].blocked)
        &&& forall|p: int| !#[trigger] self.walks.contains_key(p)
        &&& self.sweep is Some ==> self.sweep->0 == self.pops.len()
    }

    /// Worker `i` can go on by itself: it starts, searches, falls asleep or wakes up. One that runs a
    /// task searches again when the task has come to its end.
    pub open spec fn worker_goes_on(self, i: int) -> bool {
        ||| !self.queue.registered(i)
        ||| self.pops[i].can_step()
        ||| self.pops[i].stage == PopStage::Committed
        ||| self.pops[i].stage == PopStage::Asleep && !self.parkers[i].blocked
    }

    /// Producer `p` can go on with its walk: no worker holds the lock that it waits for.
    pub open spec fn producer_goes_on(self, p: int) -> bool {
        &&& self.walks.contains_key(p)
        &&& self.walks[p].is_done() || !self.walks[p].waiting || !self.holds(self.walks[p].place())
    }
}

/// The step adds nothing to the world and does not come to nothing. A worker that loses a steal,
/// or wakes up for no reason, makes no progress; nor does one that starts in the place of another.
pub open spec fn is_progress(w: World, n: World, step: Step) -> bool {
    match step {
        Step::Work { worker, action } => action != PopAction::Again || n.pops[worker]
            != w.pops[worker],
        Step::Start { worker } => !w.queue.registered(worker),
        Step::FallAsleep { .. } => true,
        Step::WakeUp { worker } => !w.parkers[worker].blocked,
        Step::Look { .. } | Step::Finish { .. } | Step::Release => true,
        _ => false,
    }
}

proof fn lemma_walks_split(walks: Map<int, WakeWalk>, p: int)
    requires
        walks.dom().finite(),
        walks.contains_key(p),
    ensures
        walks_cost(walks) == walk_cost(walks[p]) + walks_cost(walks.remove(p)),
    decreases walks.dom().len(),
{
    assert(walks.dom().contains(p));
    assert(walks.dom().len() > 0);
    let q = walks.dom().choose();
    assert(walks.dom().contains(q));
    if p != q {
        lemma_walks_split(walks.remove(q), p);
        lemma_walks_split(walks.remove(p), q);
        assert(walks.remove(p).remove(q) =~= walks.remove(q).remove(p));
    }
}

proof fn lemma_walks_insert(walks: Map<int, WakeWalk>, p: int, walk: WakeWalk)
    requires
        walks.dom().finite(),
        walks.contains_key(p),
    ensures
        walks_cost(walks.insert(p, walk)) == walks_cost(walks) - walk_cost(walks[p]) + walk_cost(
            walk,
        ),
{
    lemma_walks_split(walks, p);
    lemma_walks_split(walks.insert(p, walk), p);
    assert(walks.insert(p, walk).remove(p) =~= walks.remove(p));
}

proof fn lemma_ranks_same(w: World, n: World, count: nat)
    requires
        count <= w.pops.len(),
        forall|i: int| 0 <= i < count ==> #[trigger] n.rank_of(i) == w.rank_of(i),
    ensures
        n.ranks(count) == w.ranks(count),
    decreases count,
{
    if count > 0 {
        lemma_ranks_same(w, n, (count - 1) as nat);
        assert(n.rank_of(count - 1) == w.rank_of(count - 1));
    }
}

proof fn lemma_ranks_change(w: World, n: World, i: int, count: nat)
    requires
        0 <= i < count <= w.pops.len(),
        forall|j: int| 0 <= j < count && j != i ==> #[trigger] n.rank_of(j) == w.rank_of(j),
    ensures
        n.ranks(count) == w.ranks(count) - w.rank_of(i) + n.rank_of(i),
    decreases count,
{
    if i == count - 1 {
        lemma_ranks_same(w, n, (count - 1) as nat);
    } else {
        lemma_ranks_change(w, n, i, (count - 1) as nat);
        assert(n.rank_of(count - 1) == w.rank_of(count - 1));
    }
}

proof fn lemma_work_nears_rest(w: World, n: World, worker: int, action: PopAction)
    requires
        w.inv(),
        steps(w, n, Step::Work { worker, action }),
        is_progress(w, n, Step::Work { worker, action }),
    ensures
        n.distance() < w.distance(),
{
    assert(w.pops[worker].idx == worker);
    lemma_step_account(w, n, Step::Work { worker, action });
    step_keeps_the_shape(w.pops[worker], w.queue, n.pops[worker], n.queue, action);
    assert forall|j: int| 0 <= j < w.pops.len() && j != worker implies #[trigger] n.rank_of(j)
        == w.rank_of(j) by {
        assert(n.queue.registered(j) == w.queue.registered(j));
    }
    assert(n.queue.registered(worker) == w.queue.registered(worker));
    lemma_ranks_change(w, n, worker, w.pops.len());
    if let PopAction::Run(task) = action {
        assert(w.queue.tasks().len() == n.queue.tasks().len() + 1);
    }
}

/// Every step of progress brings the world nearer to rest.
pub proof fn progress_brings_rest_nearer(w: World, n: World, step: Step)
    requires
        w.inv(),
        steps(w, n, step),
        is_progress(w, n, step),
    ensures
        n.distance() < w.distance(),
{
    lemma_step_account(w, n, step);
    let count = w.pops.len();
    match step {
        Step::Work { worker, action } => lemma_work_nears_rest(w, n, worker, action),
        Step::Start { worker } => {
            assert(w.queue.deque(worker) =~= Seq::<u64>::empty());
            assert(n.queue.tasks() =~= n.queue.tasks().add(w.queue.deque(worker).to_multiset()));
            assert(w.pops[worker].stage == PopStage::Scanning);
            lemma_ranks_change(w, n, worker, count);
        },
        Step::FallAsleep { worker } => lemma_ranks_change(w, n, worker, count),
        Step::WakeUp { worker } => lemma_ranks_change(w, n, worker, count),
        Step::Look { producer, seen } => {
            let walk = w.walks[producer];
            lemma_walks_insert(w.walks, producer, walk.after(seen));
            assert(0 <= walk.place() < count);
            lemma_ranks_change(w, n, walk.place(), count);
        },
        Step::Finish { producer } => {
            lemma_walks_split(w.walks, producer);
            lemma_ranks_same(w, n, count);
        },
        Step::Release => lemma_ranks_change(w, n, w.sweep->0, count),
        _ => {},
    }
}

/// A search that makes a step without progress has lost a steal: a shard holds a task, and nothing
/// has changed but the worker's generator. So the distance from rest is as it was.
pub proof fn step_without_progress_lost_a_steal(
    w: World,
    n: World,
    worker: int,
    action: PopAction,
)
    requires
        w.inv(),
        steps(w, n, Step::Work { worker, action }),
        !is_progress(w, n, Step::Work { worker, action }),
    ensures
        scanned(w.queue, n.queue, worker, Scan { found: None, contended: true }),
        w.queue.shard_waits(),
        n.pops == w.pops,
        n.queue.tasks() == w.queue.tasks(),
        n.distance() == w.distance(),
{
    assert(w.pops[worker].idx == worker);
    assert(n.pops =~= w.pops);
    let lost = Scan { found: None, contended: true };
    match w.pops[worker].stage {
        PopStage::Armed => {
            let same = n.queue.with_parked(w.queue.parked);
            let scan = choose|scan: Scan|
                #[trigger] scanned(w.queue, same, worker, scan) && scan.found is None
                    && scan.contended;
            assert(scan == lost);
            assert(same == n.queue);
        },
        _ => {
            let scan = choose|scan: Scan|
                {
                    &&& #[trigger] scanned(w.queue, n.queue, worker, scan)
                    &&& (n.pops[worker].stage, action) == after_scan(w.pops[worker].stage, scan)
                };
            assert(scan == lost);
        },
    }
    lemma_step_account(w, n, Step::Work { worker, action });
    step_keeps_the_shape(w.pops[worker], w.queue, n.pops[worker], n.queue, action);
    assert forall|i: int| 0 <= i < w.pops.len() implies #[trigger] n.rank_of(i) == w.rank_of(
        i,
    ) by {
        assert(n.queue.registered(i) == w.queue.registered(i));
    }
    lemma_ranks_same(w, n, w.pops.len());
}

/// A run of progress alone is bounded: a world to which nothing is added comes to rest, as long as
/// no worker loses its steals, or wakes up for no reason, without end.
pub proof fn progress_is_bounded(run: Run)
    requires
        run.is_run(),
        run.worlds[0].inv(),
        is_all_progress(run),
    ensures
        run.steps.len() + run.end().distance() <= run.worlds[0].distance(),
    decreases run.steps.len(),
{
    if run.steps.len() > 0 {
        lemma_shorter(run);
        let before = run.shorter();
        assert forall|i: int| 0 <= i < before.steps.len() implies is_progress(
            before.worlds[i],
            before.worlds[i + 1],
            #[trigger] before.steps[i],
        ) by {
            assert(is_progress(run.worlds[i], run.worlds[i + 1], run.steps[i]));
        }
        progress_is_bounded(before);
        run_keeps_the_invariant(before);
        let last = run.steps.len() - 1;
        assert(is_progress(run.worlds[last], run.worlds[last + 1], run.steps[last]));
        progress_brings_rest_nearer(before.end(), run.end(), run.steps.last());
    }
}

/// A world that is not at rest goes on: a worker can, or a producer, or the one who releases the
/// parkers. So nobody waits for a lock that is not given up, and nobody sleeps forever while
/// somebody still has to wake them.
pub proof fn world_goes_on_until_it_rests(w: World)
    requires
        w.inv(),
        !w.at_rest(),
    ensures
        ({
            ||| exists|i: int| 0 <= i < w.pops.len() && #[trigger] w.worker_goes_on(i)
            ||| exists|p: int| #[trigger] w.producer_goes_on(p)
            ||| w.sweep is Some && w.sweep->0 < w.pops.len() && !w.holds(w.sweep->0)
        }),
{
    if forall|i: int| 0 <= i < w.pops.len() ==> !#[trigger] w.worker_goes_on(i) {
        assert forall|i: int| 0 <= i < w.pops.len() implies !w.holds(i) && ((
        #[trigger] w.pops[i]).stage == PopStage::Exited || (w.pops[i].stage == PopStage::Asleep
            && w.parkers[i].blocked)) by {
            assert(!w.worker_goes_on(i));
        }
        if exists|p: int| #[trigger] w.walks.contains_key(p) {
            let p = choose|p: int| #[trigger] w.walks.contains_key(p);
            let place = w.walks[p].place();
            assert(0 <= place < w.pops.len());
            assert(w.pops[place].idx == place);
            assert(!w.holds(place));
            assert(w.producer_goes_on(p));
        } else {
            assert(w.sweep is Some && w.sweep->0 < w.pops.len());
            assert(w.pops[w.sweep->0].idx == w.sweep->0);
        }
    }
}

/// The first place on a walk that holds a task, if place number `stop` holds one.
proof fn lemma_first_filled(queue: QueueView, idx: int, stop: int) -> (first: int)
    requires
        0 <= stop,
        queue.stop_items(idx, stop).len() > 0,
    ensures
        0 <= first <= stop,
        queue.stop_items(idx, first).len() > 0,
        forall|e: int| 0 <= e < first ==> (#[trigger] queue.stop_items(idx, e)).len() == 0,
    decreases stop,
{
    if exists|e: int| 0 <= e < stop && (#[trigger] queue.stop_items(idx, e)).len() > 0 {
        let e = choose|e: int| 0 <= e < stop && (#[trigger] queue.stop_items(idx, e)).len() > 0;
        lemma_first_filled(queue, idx, e)
    } else {
        stop
    }
}

/// A scan that loses no steal is possible: it finds a task, or the queue is empty.
proof fn lemma_scan_can_succeed(queue: QueueView, idx: int) -> (outcome: (QueueView, Scan))
    requires
        0 < queue.shards.len(),
        queue.registered(idx),
    ensures
        scanned(queue, outcome.0, idx, outcome.1),
        outcome.0.parked == queue.parked,
        outcome.1.found is Some || !outcome.1.contended,
{
    if queue.deque(idx).len() > 0 {
        (queue.pop_local(idx), Scan { found: Some(queue.deque(idx)[0]), contended: false })
    } else {
        walk_misses_nothing(queue, idx);
        let stops = queue.stops();
        if queue.passed_shard(idx, stops) || queue.passed_peer(idx, stops) {
            let stop = choose|stop: int|
                0 <= stop < stops && (#[trigger] queue.stop_items(idx, stop)).len() > 0;
            let first = lemma_first_filled(queue, idx, stop);
            source_is_in_range(queue, idx, first);
            let scan = Scan { found: Some(queue.stop_items(idx, first)[0]), contended: false };
            let after = queue.stolen(
                idx,
                queue.source(idx, first),
                0,
                queue.rng_at(idx, first),
            );
            assert(!queue.passed_shard(idx, first));
            assert(!queue.passed_peer(idx, first));
            assert(scanned(queue, after, idx, scan));
            (after, scan)
        } else {
            assert forall|v: int| 0 <= v < queue.workers.len() implies (
            #[trigger] queue.deque(v)).len() == 0 by {
                assert(!queue.deque_waits());
            }
            let after = queue.with_worker(
                idx,
                WorkerView { deque: Seq::empty(), rng: queue.rng_at(idx, stops) },
            );
            (after, Scan { found: None, contended: false })
        }
    }
}

proof fn lemma_worker_can_progress(w: World, i: int) -> (next: (World, Step))
    requires
        w.inv(),
        0 <= i < w.pops.len(),
        w.worker_goes_on(i),
    ensures
        steps(w, next.0, next.1),
        is_progress(w, next.0, next.1),
{
    let pop = w.pops[i];
    assert(pop.idx == i);
    if !w.queue.registered(i) {
        let n = World {
            queue: w.queue.with_worker(i, WorkerView::fresh(i)),
            ..w.with_blocked(i, false)
        };
        (n, Step::Start { worker: i })
    } else {
        match pop.stage {
            PopStage::Committed => (
                w.with_stage(i, PopStage::Asleep).with_blocked(i, true),
                Step::FallAsleep { worker: i },
            ),
            PopStage::Asleep => {
                let n = World {
                    queue: w.queue.with_parked(w.queue.parked.wrapping_sub(1)),
                    ..w.with_stage(i, PopStage::Scanning).with_blocked(i, false)
                };
                (n, Step::WakeUp { worker: i })
            },
            PopStage::Locked => lemma_worked(
                w,
                i,
                w.queue.with_parked(w.queue.parked.wrapping_add(1)),
                PopStage::Armed,
                PopAction::Again,
            ),
            PopStage::Checking => if w.queue.shutdown {
                lemma_worked(
                    w,
                    i,
                    w.queue.with_parked(w.queue.parked.wrapping_sub(1)),
                    PopStage::Exited,
                    PopAction::Exit,
                )
            } else {
                lemma_worked(w, i, w.queue, PopStage::Committed, PopAction::Sleep)
            },
            PopStage::Armed => {
                let (after, scan) = lemma_scan_can_succeed(w.queue, i);
                match scan.found {
                    Some(task) => {
                        let queue = after.with_parked(w.queue.parked.wrapping_sub(1));
                        assert(queue.with_parked(w.queue.parked) =~= after);
                        lemma_worked(w, i, queue, PopStage::Scanning, PopAction::Run(task))
                    },
                    None => {
                        assert(after.with_parked(w.queue.parked) =~= after);
                        lemma_worked(w, i, after, PopStage::Checking, PopAction::Again)
                    },
                }
            },
            _ => {
                let (after, scan) = lemma_scan_can_succeed(w.queue, i);
                let (stage, action) = after_scan(pop.stage, scan);
                lemma_worked(w, i, after, stage, action)
            },
        }
    }
}

/// The world after worker `i`'s step.
proof fn lemma_worked(
    w: World,
    i: int,
    queue: QueueView,
    stage: PopStage,
    action: PopAction,
) -> (next: (World, Step))
    requires
        0 <= i < w.pops.len(),
        w.queue.registered(i),
        w.pops[i].can_step(),
        popped(w.pops[i], w.queue, PopLoop { stage, ..w.pops[i] }, queue, action),
        action != PopAction::Again || stage != w.pops[i].stage,
    ensures
        steps(w, next.0, next.1),
        is_progress(w, next.0, next.1),
{
    let n = World { queue, ..w.with_stage(i, stage) };
    (n, Step::Work { worker: i, action })
}

/// As long as a world is not at rest, progress is possible in it.
pub proof fn progress_is_possible_until_rest(w: World) -> (next: (World, Step))
    requires
        w.inv(),
        !w.at_rest(),
    ensures
        steps(w, next.0, next.1),
        is_progress(w, next.0, next.1),
{
    world_goes_on_until_it_rests(w);
    if exists|i: int| 0 <= i < w.pops.len() && #[trigger] w.worker_goes_on(i) {
        let i = choose|i: int| 0 <= i < w.pops.len() && #[trigger] w.worker_goes_on(i);
        lemma_worker_can_progress(w, i)
    } else if exists|p: int| #[trigger] w.producer_goes_on(p) {
        let producer = choose|p: int| #[trigger] w.producer_goes_on(p);
        let walk = w.walks[producer];
        if walk.is_done() {
            (World { walks: w.walks.remove(producer), ..w }, Step::Finish { producer })
        } else {
            let place = walk.place();
            let seen = if !walk.waiting {
                Seen::Busy
            } else if w.parkers[place].blocked {
                Seen::Claimed
            } else {
                Seen::Awake
            };
            let looked = World { walks: w.walks.insert(producer, walk.after(seen)), ..w };
            let n = if seen == Seen::Claimed {
                looked.with_blocked(place, false)
            } else {
                looked
            };
            (n, Step::Look { producer, seen })
        }
    } else {
        let next = w.sweep->0;
        (World { sweep: Some(next + 1), ..w.with_blocked(next, false) }, Step::Release)
    }
}

/// Every step of the run is progress.
pub open spec fn is_all_progress(run: Run) -> bool {
    forall|i: int|
        0 <= i < run.steps.len() ==> is_progress(
            run.worlds[i],
            run.worlds[i + 1],
            #[trigger] run.steps[i],
        )
}

/// From every world, progress leads to rest, in no more steps than the world is from it.
pub proof fn progress_leads_to_rest(w: World) -> (run: Run)
    requires
        w.inv(),
    ensures
        run.is_run(),
        is_all_progress(run),
        run.worlds[0] == w,
        run.end().at_rest(),
        run.steps.len() <= w.distance(),
    decreases w.distance(),
{
    if w.at_rest() {
        Run { worlds: seq![w], steps: Seq::empty() }
    } else {
        let (n, step) = progress_is_possible_until_rest(w);
        progress_brings_rest_nearer(w, n, step);
        steps_keep_the_invariant(w, n, step);
        let later = progress_leads_to_rest(n);
        let run = Run { worlds: seq![w] + later.worlds, steps: seq![step] + later.steps };
        assert forall|i: int| 0 <= i < run.steps.len() implies steps(
            run.worlds[i],
            run.worlds[i + 1],
            #[trigger] run.steps[i],
        ) && is_progress(run.worlds[i], run.worlds[i + 1], run.steps[i]) by {
            if i > 0 {
                assert(run.steps[i] == later.steps[i - 1]);
                assert(run.worlds[i] == later.worlds[i - 1]);
                assert(run.worlds[i + 1] == later.worlds[i]);
            } else {
                assert(run.worlds[1] == later.worlds[0]);
            }
        }
        assert(run.end() == later.end());
        run
    }
}

/// A run of progress that progress cannot make longer has come to rest.
pub proof fn longest_run_of_progress_ends_at_rest(run: Run)
    requires
        run.is_run(),
        run.worlds[0].inv(),
        is_all_progress(run),
        forall|n: World, step: Step| #[trigger]
            steps(run.end(), n, step) ==> !is_progress(run.end(), n, step),
    ensures
        run.end().at_rest(),
{
    run_keeps_the_invariant(run);
    if !run.end().at_rest() {
        let (n, step) = progress_is_possible_until_rest(run.end());
        assert(steps(run.end(), n, step));
    }
}

/// A world at rest has run everything: where nobody has ordered the shutdown, every task that was
/// pushed was run, but for those that workers which died had in their deques.
pub proof fn rest_means_everything_was_run(run: Run, shards: nat, workers: nat)
    requires
        run.begins_new(shards, workers),
        run.end().at_rest(),
        !run.end().queue.shutdown,
    ensures
        run.end().queue.is_empty(),
        run.pushed() == run.ran().add(run.abandoned()),
{
    every_task_is_accounted_for(run, shards, workers);
    let end = run.end();
    if !end.queue.is_empty() {
        some_worker_stays_awake(end);
        if end.someone_awake() {
            let i = choose|i: int| 0 <= i < end.pops.len() && !#[trigger] end.is_dormant(i);
            assert(end.pops[i].stage != PopStage::Exited);
        }
        assert(false);
    }
    lemma_nothing_waits(run);
}

/// A task that was pushed once, and that no worker died with, has been run exactly once when the
/// world is at rest.
pub proof fn each_task_is_run_once(run: Run, shards: nat, workers: nat, task: u64)
    requires
        run.begins_new(shards, workers),
        run.end().at_rest(),
        !run.end().queue.shutdown,
        run.pushed().count(task) == 1,
        run.abandoned().count(task) == 0,
    ensures
        run.ran().count(task) == 1,
{
    rest_means_everything_was_run(run, shards, workers);
}

proof fn lemma_nothing_waits(run: Run)
    requires
        run.end().queue.is_empty(),
        run.pushed() == run.ran().add(run.abandoned()).add(run.end().queue.tasks()),
    ensures
        run.pushed() == run.ran().add(run.abandoned()),
{
    empty_means_no_tasks(run.end().queue);
    assert(run.end().queue.tasks() =~= Multiset::empty());
    assert(run.pushed() =~= run.ran().add(run.abandoned()));
}

/// The step keeps the order of a shutdown: who orders it has seen every push through, with its
/// wake-up, and after it only the workers push, while they run tasks.
pub open spec fn is_orderly(w: World, step: Step) -> bool {
    match step {
        Step::Shutdown => !w.wake_up_owed(),
        Step::PushShard { .. } => !w.queue.shutdown,
        _ => true,
    }
}

impl Run {
    /// Every step keeps the order of a shutdown.
    pub open spec fn orderly(self) -> bool {
        forall|i: int|
            0 <= i < self.steps.len() ==> is_orderly(self.worlds[i], #[trigger] self.steps[i])
    }

    /// The step of this number hands a task to a worker.
    pub open spec fn serves(self, k: int) -> bool {
        0 <= k < self.steps.len() && (self.steps[k] matches Step::Work {
            action: PopAction::Run(_),
            ..
        })
    }

    /// Worker `i` was handed a task.
    pub open spec fn served(self, i: int) -> bool {
        exists|k: int| #[trigger] self.serves(k) && self.steps[k]->Work_worker == i
    }
}

/// Worker `i` will scan the queue again before it ends.
pub open spec fn scans_again(w: World, i: int) -> bool {
    w.pops[i].stage != PopStage::Checking && w.pops[i].stage != PopStage::Exited
}

/// After the order to shut down, while a task waits, some worker will scan the queue again.
pub open spec fn drains(w: World) -> bool {
    w.queue.shutdown && !w.queue.is_empty() ==> exists|i: int|
        0 <= i < w.pops.len() && #[trigger] scans_again(w, i)
}

proof fn lemma_step_drains(w: World, n: World, step: Step)
    requires
        w.inv(),
        drains(w),
        steps(w, n, step),
        is_orderly(w, step),
    ensures
        drains(n),
{
    lemma_step_account(w, n, step);
    empty_means_no_tasks(w.queue);
    empty_means_no_tasks(n.queue);
    if n.queue.shutdown && !n.queue.is_empty() {
        match step {
            Step::Shutdown => {
                some_worker_stays_awake(w);
                let i = choose|i: int| 0 <= i < w.pops.len() && !#[trigger] w.is_dormant(i);
                assert(w.pops[i].stage != PopStage::Exited);
                assert(scans_again(n, i));
            },
            Step::PushLocal { worker, .. } => {
                assert(w.queue.registered(worker));
                assert(scans_again(n, worker));
            },
            Step::Start { worker } => {
                assert(scans_again(n, worker));
            },
            Step::Work { worker, action } => {
                assert(w.pops[worker].idx == worker);
                if let PopAction::Run(task) = action {
                    assert(w.queue.tasks().len() == n.queue.tasks().len() + 1);
                }
                step_keeps_the_shape(
                    w.pops[worker],
                    w.queue,
                    n.pops[worker],
                    n.queue,
                    action,
                );
                last_scan_sees_empty_queue(
                    w.pops[worker],
                    w.queue,
                    n.pops[worker],
                    n.queue,
                    action,
                );
                let i = choose|i: int| 0 <= i < w.pops.len() && #[trigger] scans_again(w, i);
                if !scans_again(n, worker) {
                    assert(i != worker);
                    assert(scans_again(n, i));
                }
            },
            _ => {
                let i = choose|i: int| 0 <= i < w.pops.len() && #[trigger] scans_again(w, i);
                assert(scans_again(n, i));
            },
        }
    }
}

proof fn lemma_run_drains(run: Run, shards: nat, workers: nat)
    requires
        run.begins_new(shards, workers),
        run.orderly(),
    ensures
        drains(run.end()),
    decreases run.steps.len(),
{
    if run.steps.len() > 0 {
        lemma_shorter(run);
        let before = run.shorter();
        assert forall|i: int| 0 <= i < before.steps.len() implies is_orderly(
            before.worlds[i],
            #[trigger] before.steps[i],
        ) by {
            assert(is_orderly(run.worlds[i], run.steps[i]));
        }
        lemma_run_drains(before, shards, workers);
        initial_world_is_sound(shards, workers);
        run_keeps_the_invariant(before);
        let last = run.steps.len() - 1;
        assert(is_orderly(run.worlds[last], run.steps[last]));
        lemma_step_drains(before.end(), run.end(), run.steps.last());
    }
}

/// Nothing is left when the last worker ends: in an orderly run, once every search has ended,
/// every task that was pushed was run, but for those that workers which died had in their deques.
pub proof fn last_worker_leaves_nothing(run: Run, shards: nat, workers: nat)
    requires
        run.begins_new(shards, workers),
        run.orderly(),
        forall|i: int|
            0 <= i < run.end().pops.len() ==> (#[trigger] run.end().pops[i]).stage
                == PopStage::Exited,
    ensures
        run.end().queue.is_empty(),
        run.pushed() == run.ran().add(run.abandoned()),
{
    every_task_is_accounted_for(run, shards, workers);
    lemma_run_drains(run, shards, workers);
    let end = run.end();
    assert(end.pops[0].stage == PopStage::Exited);
    if !end.queue.is_empty() {
        let i = choose|i: int| 0 <= i < end.pops.len() && #[trigger] scans_again(end, i);
        assert(end.pops[i].stage == PopStage::Exited);
    }
    lemma_nothing_waits(run);
}

/// A world at rest after the order to shut down: every worker has ended.
pub proof fn shutdown_ends_every_search(w: World, i: int)
    requires
        w.inv(),
        w.queue.shutdown,
        w.at_rest(),
        0 <= i < w.pops.len(),
    ensures
        w.pops[i].stage == PopStage::Exited,
{
    assert(w.pops[i].stage != PopStage::Committed);
}

proof fn lemma_serves_counts(run: Run, k: int, l: int)
    requires
        run.serves(k),
        run.serves(l),
    ensures
        run.ran().len() >= 1,
        k != l ==> run.ran().len() >= 2,
    decreases run.steps.len(),
{
    let last = run.steps.len() - 1;
    let before = run.shorter();
    if k != last && l != last {
        assert(before.serves(k) && before.serves(l));
        lemma_serves_counts(before, k, l);
    } else if k != last {
        assert(before.serves(k));
        lemma_serves_counts(before, k, k);
    } else if l != last {
        assert(before.serves(l));
        lemma_serves_counts(before, l, l);
    }
}

/// Some step serves a worker, if any task was run.
proof fn lemma_ran_was_served(run: Run)
    requires
        run.ran().len() > 0,
    ensures
        exists|k: int| #[trigger] run.serves(k),
    decreases run.steps.len(),
{
    if run.steps.len() > 0 {
        let last = run.steps.len() - 1;
        if !run.serves(last) {
            lemma_ran_was_served(run.shorter());
            let k = choose|k: int| #[trigger] run.shorter().serves(k);
            assert(run.serves(k));
        }
    }
}

/// One task goes to exactly one worker: where one task is pushed in an orderly run and no worker
/// dies with it, and each worker searches until it has a task or has ended, exactly one of them is
/// handed the task, and all others end without one.
pub proof fn one_task_goes_to_one_worker(run: Run, shards: nat, workers: nat, task: u64)
    requires
        run.begins_new(shards, workers),
        run.orderly(),
        run.pushed() == Multiset::<u64>::empty().insert(task),
        run.abandoned() == Multiset::<u64>::empty(),
        forall|i: int|
            0 <= i < run.end().pops.len() ==> (#[trigger] run.end().pops[i]).stage
                == PopStage::Exited || run.served(i),
    ensures
        run.ran() == Multiset::<u64>::empty().insert(task),
        run.end().queue.is_empty(),
        exists|k: int|
            #![trigger run.serves(k)]
            run.serves(k) && forall|l: int| #[trigger] run.serves(l) ==> l == k,
        forall|i: int|
            0 <= i < run.end().pops.len() && !run.served(i) ==> (#[trigger] run.end().pops[i]).stage
                == PopStage::Exited,
{
    every_task_is_accounted_for(run, shards, workers);
    let one = Multiset::<u64>::empty().insert(task);
    let waits = run.end().queue.tasks();
    assert(run.pushed().len() == run.ran().len() + run.abandoned().len() + waits.len());
    empty_means_no_tasks(run.end().queue);
    if run.ran().len() == 0 {
        assert forall|i: int| 0 <= i < run.end().pops.len() implies (
        #[trigger] run.end().pops[i]).stage == PopStage::Exited by {
            if run.served(i) {
                let k = choose|k: int| #[trigger] run.serves(k) && run.steps[k]->Work_worker == i;
                lemma_serves_counts(run, k, k);
            }
        }
        last_worker_leaves_nothing(run, shards, workers);
        assert(false);
    }
    assert(waits.len() == 0);
    lemma_nothing_waits(run);
    assert(run.ran() =~= one);
    lemma_ran_was_served(run);
    let k = choose|k: int| #[trigger] run.serves(k);
    assert forall|l: int| #[trigger] run.serves(l) implies l == k by {
        lemma_serves_counts(run, k, l);
    }
}

} // verus!
