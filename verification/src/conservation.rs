//! What a queue keeps: every task once, and the order within each lane.

use crate::park::{after_scan, popped, PopAction, PopLoop, PopStage};
use crate::producer::Producer;
use crate::queue::{
    pushed, scanned, source_is_in_range, QueueView, Scan, WorkerView,
};
use crate::walk::Source;
use vstd::multiset::Multiset;
use vstd::prelude::*;
use vstd::seq_lib::lemma_multiset_commutative;

verus! {

broadcast use {vstd::multiset::group_multiset_axioms, vstd::seq_lib::group_to_multiset_ensures};

/// All tasks of some lanes together.
pub open spec fn tasks_in(lanes: Seq<Seq<u64>>) -> Multiset<u64>
    decreases lanes.len(),
{
    if lanes.len() == 0 {
        Multiset::empty()
    } else {
        tasks_in(lanes.drop_last()).add(lanes.last().to_multiset())
    }
}

impl QueueView {
    /// The deques of all workers.
    pub open spec fn deques(self) -> Seq<Seq<u64>> {
        Seq::new(self.workers.len(), |v: int| self.deque(v))
    }

    /// All tasks that wait anywhere in the queue.
    pub open spec fn tasks(self) -> Multiset<u64> {
        tasks_in(self.shards).add(tasks_in(self.deques()))
    }

    /// The tasks of a queue with one shard and one worker, next first.
    pub open spec fn line(self) -> Seq<u64> {
        self.deque(0) + self.shards[0]
    }
}

proof fn lemma_tasks_in_update(lanes: Seq<Seq<u64>>, i: int, lane: Seq<u64>)
    requires
        0 <= i < lanes.len(),
    ensures
        tasks_in(lanes.update(i, lane)).add(lanes[i].to_multiset()) == tasks_in(lanes).add(
            lane.to_multiset(),
        ),
    decreases lanes.len(),
{
    let next = lanes.update(i, lane);
    if i == lanes.len() - 1 {
        assert(next.drop_last() =~= lanes.drop_last());
    } else {
        assert(next.drop_last() =~= lanes.drop_last().update(i, lane));
        lemma_tasks_in_update(lanes.drop_last(), i, lane);
        assert forall|t: u64|
            #[trigger] tasks_in(next).add(lanes[i].to_multiset()).count(t) == tasks_in(lanes).add(
                lane.to_multiset(),
            ).count(t) by {
            assert(tasks_in(next.drop_last()).add(lanes[i].to_multiset()).count(t) == tasks_in(
                lanes.drop_last(),
            ).add(lane.to_multiset()).count(t));
        }
    }
    assert(tasks_in(next).add(lanes[i].to_multiset()) =~= tasks_in(lanes).add(lane.to_multiset()));
}

proof fn lemma_no_tasks(lanes: Seq<Seq<u64>>)
    ensures
        (tasks_in(lanes).len() == 0) == (forall|i: int|
            0 <= i < lanes.len() ==> (#[trigger] lanes[i]).len() == 0),
    decreases lanes.len(),
{
    if lanes.len() > 0 {
        let rest = lanes.drop_last();
        lemma_no_tasks(rest);
        if tasks_in(lanes).len() == 0 {
            assert forall|i: int| 0 <= i < lanes.len() implies (#[trigger] lanes[i]).len() == 0 by {
                if i < rest.len() {
                    assert(rest[i].len() == 0);
                }
            }
        }
        if forall|i: int| 0 <= i < lanes.len() ==> (#[trigger] lanes[i]).len() == 0 {
            assert forall|i: int| 0 <= i < rest.len() implies (#[trigger] rest[i]).len() == 0 by {
                assert(lanes[i].len() == 0);
            }
            assert(lanes.last().len() == 0);
        }
    }
}

/// Replacing one worker's deque changes the queue's tasks by just that.
proof fn lemma_deque_change(queue: QueueView, idx: int, worker: WorkerView)
    requires
        0 <= idx < queue.workers.len(),
    ensures
        queue.with_worker(idx, worker).tasks().add(queue.deque(idx).to_multiset())
            == queue.tasks().add(worker.deque.to_multiset()),
{
    let next = queue.with_worker(idx, worker);
    assert(next.deques() =~= queue.deques().update(idx, worker.deque));
    lemma_tasks_in_update(queue.deques(), idx, worker.deque);
    assert(next.tasks().add(queue.deque(idx).to_multiset()) =~= tasks_in(queue.shards).add(
        tasks_in(next.deques()).add(queue.deque(idx).to_multiset()),
    ));
    assert(queue.tasks().add(worker.deque.to_multiset()) =~= tasks_in(queue.shards).add(
        tasks_in(queue.deques()).add(worker.deque.to_multiset()),
    ));
}

/// Replacing one shard changes the queue's tasks by just that.
proof fn lemma_shard_change(queue: QueueView, j: int, shard: Seq<u64>)
    requires
        0 <= j < queue.shards.len(),
    ensures
        (QueueView { shards: queue.shards.update(j, shard), ..queue }).tasks().add(
            queue.shards[j].to_multiset(),
        ) == queue.tasks().add(shard.to_multiset()),
{
    let next = QueueView { shards: queue.shards.update(j, shard), ..queue };
    assert(next.deques() =~= queue.deques());
    lemma_tasks_in_update(queue.shards, j, shard);
    assert(next.tasks().add(queue.shards[j].to_multiset()) =~= tasks_in(queue.deques()).add(
        tasks_in(next.shards).add(queue.shards[j].to_multiset()),
    ));
    assert(queue.tasks().add(shard.to_multiset()) =~= tasks_in(queue.deques()).add(
        tasks_in(queue.shards).add(shard.to_multiset()),
    ));
}

/// A queue is empty exactly if no task waits in it.
pub proof fn empty_means_no_tasks(queue: QueueView)
    ensures
        queue.is_empty() == (queue.tasks().len() == 0),
{
    lemma_no_tasks(queue.shards);
    lemma_no_tasks(queue.deques());
    if forall|v: int|
        0 <= v < queue.workers.len() ==> (#[trigger] queue.deque(v)).len() == 0 {
        assert forall|v: int| 0 <= v < queue.deques().len() implies (
        #[trigger] queue.deques()[v]).len() == 0 by {
            assert(queue.deque(v).len() == 0);
        }
    }
    if forall|v: int|
        0 <= v < queue.deques().len() ==> (#[trigger] queue.deques()[v]).len() == 0 {
        assert forall|v: int| 0 <= v < queue.workers.len() implies (
        #[trigger] queue.deque(v)).len() == 0 by {
            assert(queue.deques()[v].len() == 0);
        }
    }
}

/// A push adds its task, once, and nothing else.
pub proof fn push_adds_one_task(
    before: QueueView,
    after: QueueView,
    producer: Producer,
    producer_after: Producer,
    this: usize,
    task: u64,
    wake: Option<usize>,
)
    requires
        0 < before.shards.len(),
        producer.worker_of(this) is Some ==> before.registered(
            producer.worker_of(this)->0 as int,
        ),
        pushed(before, after, producer, producer_after, this, task, wake),
    ensures
        after.tasks() == before.tasks().insert(task),
{
    match producer.worker_of(this) {
        Some(idx) => lemma_local_push_adds(before, idx as int, task),
        None => {
            let target = choose|target: int|
                0 <= target < before.shards.len() && after == #[trigger] before.push_shard(
                    target,
                    task,
                );
            if before.shards.len() == 1 {
                assert(after == before.push_shard(0, task));
            }
            lemma_shard_push_adds(before, target, task);
        },
    }
}

pub(crate) proof fn lemma_local_push_adds(queue: QueueView, idx: int, task: u64)
    requires
        queue.registered(idx),
    ensures
        queue.push_local(idx, task).tasks() == queue.tasks().insert(task),
{
    let worker = queue.workers[idx]->0;
    let next = WorkerView { deque: worker.deque.push(task), ..worker };
    lemma_deque_change(queue, idx, next);
    lemma_cancel(
        queue.push_local(idx, task).tasks(),
        queue.tasks(),
        worker.deque.to_multiset(),
        task,
    );
}

pub(crate) proof fn lemma_shard_push_adds(queue: QueueView, target: int, task: u64)
    requires
        0 <= target < queue.shards.len(),
    ensures
        queue.push_shard(target, task).tasks() == queue.tasks().insert(task),
{
    lemma_shard_change(queue, target, queue.shards[target].push(task));
    lemma_cancel(
        queue.push_shard(target, task).tasks(),
        queue.tasks(),
        queue.shards[target].to_multiset(),
        task,
    );
}

proof fn lemma_cancel(
    after: Multiset<u64>,
    before: Multiset<u64>,
    lane: Multiset<u64>,
    task: u64,
)
    requires
        after.add(lane) == before.add(lane.insert(task)),
    ensures
        after == before.insert(task),
{
    assert forall|t: u64| #[trigger] after.count(t) == before.insert(task).count(t) by {
        assert(after.add(lane).count(t) == before.add(lane.insert(task)).count(t));
        let one: nat = if t == task {
            1
        } else {
            0
        };
        let more = lane.insert(task);
        assert(more.count(t) == lane.count(t) + one);
        assert(after.add(lane).count(t) == after.count(t) + lane.count(t));
        assert(before.add(more).count(t) == before.count(t) + more.count(t));
        assert(before.insert(task).count(t) == before.count(t) + one);
    }
    assert(after =~= before.insert(task));
}

/// A stolen lane is the task that was handed out, the batch and what is left, in this order.
proof fn lemma_lane_parts(lane: Seq<u64>, batch: int)
    requires
        0 <= batch < lane.len(),
    ensures
        lane == seq![lane[0]] + lane.subrange(1, batch + 1) + lane.skip(batch + 1),
        lane.to_multiset() == lane.subrange(1, batch + 1).to_multiset().add(
            lane.skip(batch + 1).to_multiset(),
        ).insert(lane[0]),
{
    let first = seq![lane[0]];
    let moved = lane.subrange(1, batch + 1);
    let left = lane.skip(batch + 1);
    assert(lane =~= first + moved + left);
    lemma_multiset_commutative(first + moved, left);
    lemma_multiset_commutative(first, moved);
    assert(first =~= Seq::<u64>::empty().push(lane[0]));
    assert(first.to_multiset() =~= Multiset::<u64>::empty().insert(lane[0]));
    assert(lane.to_multiset() =~= moved.to_multiset().add(left.to_multiset()).insert(lane[0]));
}

/// A scan takes the task that it found, once, and loses none.
pub proof fn scan_takes_what_it_finds(before: QueueView, after: QueueView, idx: int, scan: Scan)
    requires
        0 < before.shards.len(),
        before.registered(idx),
        scanned(before, after, idx, scan),
    ensures
        match scan.found {
            Some(task) => before.tasks() == after.tasks().insert(task),
            None => after.tasks() == before.tasks(),
        },
{
    let own = before.deque(idx);
    if own.len() > 0 {
        let worker = before.workers[idx]->0;
        lemma_deque_change(before, idx, WorkerView { deque: own.skip(1), ..worker });
        lemma_lane_parts(own, 0);
        assert(own.subrange(1, 1) =~= Seq::<u64>::empty());
        assert(own.to_multiset() =~= own.skip(1).to_multiset().insert(own[0]));
        lemma_cancel(before.tasks(), after.tasks(), own.skip(1).to_multiset(), own[0]);
    } else {
        assert(own =~= Seq::<u64>::empty());
        match scan.found {
            None => {
                lemma_deque_change(
                    before,
                    idx,
                    WorkerView { deque: Seq::empty(), rng: before.rng_at(idx, before.stops()) },
                );
                let none = Seq::<u64>::empty().to_multiset();
                assert forall|t: u64| #[trigger] after.tasks().count(t) == before.tasks().count(t) by {
                    assert(after.tasks().add(none).count(t) == before.tasks().add(none).count(t));
                }
                assert(after.tasks() =~= before.tasks());
            },
            Some(task) => {
                let (stop, batch) = choose|stop: int, batch: int|
                    #![trigger before.stolen(idx, before.source(idx, stop), batch, before.rng_at(idx, stop))]
                    {
                        &&& 0 <= stop < before.stops()
                        &&& 0 <= batch < before.stop_items(idx, stop).len()
                        &&& task == before.stop_items(idx, stop)[0]
                        &&& scan.contended == before.passed_shard(idx, stop)
                        &&& after == before.stolen(
                            idx,
                            before.source(idx, stop),
                            batch,
                            before.rng_at(idx, stop),
                        )
                    };
                source_is_in_range(before, idx, stop);
                let source = before.source(idx, stop);
                let lane = before.items(source);
                let moved = lane.subrange(1, batch + 1);
                let left = lane.skip(batch + 1);
                let thief = WorkerView { deque: moved, rng: before.rng_at(idx, stop) };
                lemma_lane_parts(lane, batch);
                let middle = match source {
                    Source::Shard(j) => QueueView {
                        shards: before.shards.update(j, left),
                        ..before
                    },
                    Source::Peer(v) => before.with_worker(
                        v,
                        WorkerView { deque: left, ..before.workers[v]->0 },
                    ),
                };
                match source {
                    Source::Shard(j) => lemma_shard_change(before, j, left),
                    Source::Peer(v) => lemma_deque_change(
                        before,
                        v,
                        WorkerView { deque: left, ..before.workers[v]->0 },
                    ),
                }
                assert(middle.deque(idx) =~= Seq::<u64>::empty());
                lemma_deque_change(middle, idx, thief);
                assert forall|t: u64| #[trigger] before.tasks().count(t)
                    == after.tasks().insert(task).count(t) by {
                    assert(middle.tasks().add(lane.to_multiset()).count(t) == before.tasks().add(
                        left.to_multiset(),
                    ).count(t));
                    assert(after.tasks().add(middle.deque(idx).to_multiset()).count(t)
                        == middle.tasks().add(moved.to_multiset()).count(t));
                }
                assert(before.tasks() =~= after.tasks().insert(task));
            },
        }
    }
}

/// A worker's step hands out the task that it runs, once, and loses none.
pub proof fn step_takes_what_it_runs(
    pop: PopLoop,
    before: QueueView,
    pop_after: PopLoop,
    after: QueueView,
    action: PopAction,
)
    requires
        0 < before.shards.len(),
        before.registered(pop.idx as int),
        pop.can_step(),
        popped(pop, before, pop_after, after, action),
    ensures
        match action {
            PopAction::Run(task) => before.tasks() == after.tasks().insert(task),
            _ => after.tasks() == before.tasks(),
        },
{
    let idx = pop.idx as int;
    let unarmed = after.with_parked(before.parked);
    assert(unarmed.deques() =~= after.deques());
    assert(before.with_parked(after.parked).deques() =~= before.deques());
    match pop.stage {
        PopStage::Scanning | PopStage::Spinning(_) => {
            let scan = choose|scan: Scan|
                {
                    &&& #[trigger] scanned(before, after, idx, scan)
                    &&& (pop_after.stage, action) == after_scan(pop.stage, scan)
                };
            scan_takes_what_it_finds(before, after, idx, scan);
        },
        PopStage::Armed => {
            let scan = choose|scan: Scan|
                {
                    &&& #[trigger] scanned(before, unarmed, idx, scan)
                    &&& match scan.found {
                        Some(task) => action == PopAction::Run(task),
                        None => action == PopAction::Again,
                    }
                };
            scan_takes_what_it_finds(before, unarmed, idx, scan);
        },
        _ => {
            assert(after.deques() =~= before.deques());
        },
    }
}

/// A worker that starts in the place of another takes the other's tasks out of the queue, and no
/// others.
pub proof fn restart_abandons_one_deque(queue: QueueView, idx: int)
    requires
        0 <= idx < queue.workers.len(),
    ensures
        queue.with_worker(idx, WorkerView::fresh(idx)).tasks().add(
            queue.deque(idx).to_multiset(),
        ) == queue.tasks(),
{
    lemma_deque_change(queue, idx, WorkerView::fresh(idx));
    assert(queue.tasks().add(Seq::<u64>::empty().to_multiset()) =~= queue.tasks());
}

/// Tasks leave each shard in the order in which they came: a scan takes them from the front and
/// leaves the rest as it was.
pub proof fn shards_are_first_in_first_out(
    before: QueueView,
    after: QueueView,
    idx: int,
    scan: Scan,
    j: int,
)
    requires
        0 < before.shards.len(),
        before.registered(idx),
        0 <= j < before.shards.len(),
        scanned(before, after, idx, scan),
    ensures
        exists|taken: int|
            0 <= taken <= before.shards[j].len() && after.shards[j]
                == #[trigger] before.shards[j].skip(taken),
{
    assert(before.shards[j] =~= before.shards[j].skip(0));
    if before.deque(idx).len() == 0 && scan.found is Some {
        let (stop, batch) = choose|stop: int, batch: int|
            #![trigger before.stolen(idx, before.source(idx, stop), batch, before.rng_at(idx, stop))]
            {
                &&& 0 <= stop < before.stops()
                &&& 0 <= batch < before.stop_items(idx, stop).len()
                &&& after == before.stolen(
                    idx,
                    before.source(idx, stop),
                    batch,
                    before.rng_at(idx, stop),
                )
            };
        source_is_in_range(before, idx, stop);
    }
}

/// With one worker and one shard, a task that another thread pushes joins at the end of the line.
pub proof fn push_joins_the_line(
    before: QueueView,
    after: QueueView,
    producer: Producer,
    producer_after: Producer,
    this: usize,
    task: u64,
    wake: Option<usize>,
)
    requires
        before.shards.len() == 1,
        before.workers.len() == 1,
        producer.worker_of(this) is None,
        pushed(before, after, producer, producer_after, this, task, wake),
    ensures
        after.line() == before.line().push(task),
{
    assert(after.deque(0) == before.deque(0));
    assert(after.line() =~= before.line().push(task));
}

/// With one worker and one shard, a scan finds the task at the head of the line; a scan that lost
/// its steal leaves the line as it was.
pub proof fn scan_serves_the_line(before: QueueView, after: QueueView, scan: Scan)
    requires
        before.shards.len() == 1,
        before.workers.len() == 1,
        before.registered(0),
        scanned(before, after, 0, scan),
    ensures
        match scan.found {
            Some(task) => {
                &&& before.line().len() > 0
                &&& task == before.line()[0]
                &&& after.line() == before.line().skip(1)
            },
            None => {
                &&& scan.contended == (before.line().len() > 0)
                &&& after.line() == before.line()
            },
        },
{
    if before.deque(0).len() > 0 {
        assert(after.line() =~= before.line().skip(1));
    } else {
        assert(before.line() =~= before.shards[0]);
        match scan.found {
            None => {
                assert(before.is_empty() == (before.line().len() == 0));
                assert(after.line() =~= before.line());
            },
            Some(task) => {
                let (stop, batch) = choose|stop: int, batch: int|
                    #![trigger before.stolen(0, before.source(0, stop), batch, before.rng_at(0, stop))]
                    {
                        &&& 0 <= stop < before.stops()
                        &&& 0 <= batch < before.stop_items(0, stop).len()
                        &&& task == before.stop_items(0, stop)[0]
                        &&& after == before.stolen(
                            0,
                            before.source(0, stop),
                            batch,
                            before.rng_at(0, stop),
                        )
                    };
                source_is_in_range(before, 0, stop);
                assert(after.line() =~= before.line().skip(1));
            },
        }
    }
}

} // verus!
