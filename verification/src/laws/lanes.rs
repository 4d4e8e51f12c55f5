//! The order in which tasks are handed out.
//!
//! A lane is a shard or a worker's deque. Tasks leave a lane from its front, in the order in which
//! they joined it, whatever the number of lanes and whoever takes them.

use crate::queue::{scanned, source_is_in_range, walk_misses_nothing, Probe, Queue, QueueView, Scan};
use crate::walk::{source_at_is_in_range, Source};
use vstd::prelude::*;

verus! {

/// A place where tasks wait in line.
#[derive(PartialEq, Eq, Structural)]
pub enum Lane {
    /// A shard, by its index.
    Shard(usize),
    /// A worker's deque, by the worker's index.
    Deque(usize),
}

/// The queue has the lane.
pub open spec fn has_lane(queue: QueueView, lane: Lane) -> bool {
    match lane {
        Lane::Shard(j) => j < queue.shards.len(),
        Lane::Deque(v) => v < queue.workers.len() && queue.workers[v as int] is Some,
    }
}

/// The tasks that wait in a lane, first the one that joined it first.
pub open spec fn line(queue: QueueView, lane: Lane) -> Seq<u64> {
    match lane {
        Lane::Shard(j) => queue.shards[j as int],
        Lane::Deque(v) => queue.workers[v as int]->0.deque,
    }
}

/// Nothing waits anywhere.
pub open spec fn nothing_waits(queue: QueueView) -> bool {
    forall|lane: Lane| #[trigger] has_lane(queue, lane) ==> line(queue, lane).len() == 0
}

/// No task waits twice.
pub open spec fn waits_once(queue: QueueView) -> bool {
    forall|l: Lane, m: Lane, i: int, j: int|
        #![trigger line(queue, l)[i], line(queue, m)[j]]
        has_lane(queue, l) && has_lane(queue, m) && 0 <= i < line(queue, l).len() && 0 <= j < line(
            queue,
            m,
        ).len() && line(queue, l)[i] == line(queue, m)[j] ==> l == m && i == j
}

/// The lanes, and the tasks in each, are the same.
pub open spec fn same_lines(before: QueueView, after: QueueView) -> bool {
    &&& after.shards.len() == before.shards.len()
    &&& after.workers.len() == before.workers.len()
    &&& forall|lane: Lane|
        #![trigger has_lane(after, lane)]
        #![trigger has_lane(before, lane)]
        has_lane(after, lane) == has_lane(before, lane)
    &&& forall|lane: Lane| #[trigger]
        has_lane(before, lane) ==> line(after, lane) == line(before, lane)
}

/// Worker `idx` took `task` from the front of `lane`. If the lane was its own, the rest stays there
/// in order. If not, its own was empty, and what stood behind the task is split in order: the
/// first part is now in the worker's own lane, the other is where it was. No other lane changed,
/// and no other worker's generator.
pub open spec fn took_from(
    before: QueueView,
    after: QueueView,
    idx: usize,
    lane: Lane,
    task: u64,
) -> bool {
    let own = Lane::Deque(idx);
    &&& after.shards.len() == before.shards.len()
    &&& after.workers.len() == before.workers.len()
    &&& forall|other: Lane|
        #![trigger has_lane(after, other)]
        #![trigger has_lane(before, other)]
        has_lane(after, other) == has_lane(before, other)
    &&& has_lane(before, lane)
    &&& line(before, lane).len() > 0
    &&& task == line(before, lane)[0]
    &&& lane == own ==> line(after, own) == line(before, own).skip(1)
    &&& lane != own ==> line(before, own).len() == 0 && line(after, own) + line(after, lane)
        == line(before, lane).skip(1)
    &&& forall|other: Lane| #[trigger]
        has_lane(before, other) && other != own && other != lane ==> line(after, other) == line(
            before,
            other,
        )
    &&& forall|v: int|
        0 <= v < before.workers.len() && v != idx && (#[trigger] before.workers[v]) is Some
            ==> after.workers[v]->0.rng == before.workers[v]->0.rng
}

/// A worker with tasks of its own is handed the one that was pushed there first, and is left with
/// the others in the same order. Nothing else changes.
pub proof fn own_tasks_are_handed_out_in_order(
    queue: &mut Queue,
    idx: usize,
    probe: Probe,
    scan: Scan,
)
    requires
        call_ensures(Queue::scan, (queue, idx, probe), scan),
        has_lane(queue@, Lane::Deque(idx)),
        queue@.workers[idx as int]->0.deque.len() > 0,
    ensures
        scan.found == Some(old(queue)@.workers[idx as int]->0.deque[0]),
        !scan.contended,
        final(queue)@.workers[idx as int] is Some,
        final(queue)@.workers[idx as int]->0.deque == old(
            queue,
        )@.workers[idx as int]->0.deque.skip(1),
        final(queue)@.workers[idx as int]->0.rng == old(queue)@.workers[idx as int]->0.rng,
        final(queue)@.workers.len() == old(queue)@.workers.len(),
        forall|v: int|
            0 <= v < old(queue)@.workers.len() && v != idx ==> #[trigger] final(queue)@.workers[v]
                == old(queue)@.workers[v],
        final(queue)@.shards == old(queue)@.shards,
        final(queue)@.parked == old(queue)@.parked,
        final(queue)@.shutdown == old(queue)@.shutdown,
{
}

/// What a scan hands out stood at the front of a lane, and what stood behind it keeps its order.
pub proof fn found_task_stood_in_front(
    queue: &mut Queue,
    idx: usize,
    probe: Probe,
    scan: Scan,
    task: u64,
)
    requires
        call_ensures(Queue::scan, (queue, idx, probe), scan),
        has_lane(queue@, Lane::Deque(idx)),
        0 < queue@.shards.len() <= usize::MAX,
        queue@.workers.len() <= usize::MAX,
        scan.found == Some(task),
    ensures
        exists|lane: Lane| #[trigger] took_from(old(queue)@, final(queue)@, idx, lane, task),
        final(queue)@.parked == old(queue)@.parked,
        final(queue)@.shutdown == old(queue)@.shutdown,
{
    lemma_found_in_front(queue@, final(queue)@, idx, scan, task);
}

/// The place of a walk at which a lane is.
spec fn lane_source(lane: Lane) -> Source {
    match lane {
        Lane::Shard(j) => Source::Shard(j as int),
        Lane::Deque(v) => Source::Peer(v as int),
    }
}

proof fn lemma_stolen_is_taken(
    before: QueueView,
    after: QueueView,
    idx: usize,
    lane: Lane,
    batch: int,
    rng: u32,
    task: u64,
)
    requires
        has_lane(before, Lane::Deque(idx)),
        line(before, Lane::Deque(idx)).len() == 0,
        match lane {
            Lane::Shard(j) => j < before.shards.len(),
            Lane::Deque(v) => v < before.workers.len() && v != idx,
        },
        0 <= batch < before.items(lane_source(lane)).len(),
        task == before.items(lane_source(lane))[0],
        after == before.stolen(idx as int, lane_source(lane), batch, rng),
    ensures
        took_from(before, after, idx, lane, task),
        after.workers[idx as int]->0.rng == rng,
        after.parked == before.parked,
        after.shutdown == before.shutdown,
{
    let own = Lane::Deque(idx);
    let items = before.items(lane_source(lane));
    assert(has_lane(before, lane));
    assert(line(before, lane) == items);
    assert(line(after, own) =~= items.subrange(1, batch + 1));
    assert(line(after, lane) =~= items.skip(batch + 1));
    assert(line(after, own) + line(after, lane) =~= items.skip(1));
}

pub(crate) proof fn lemma_found_in_front(
    before: QueueView,
    after: QueueView,
    idx: usize,
    scan: Scan,
    task: u64,
)
    requires
        scanned(before, after, idx as int, scan),
        has_lane(before, Lane::Deque(idx)),
        0 < before.shards.len() <= usize::MAX,
        before.workers.len() <= usize::MAX,
        scan.found == Some(task),
    ensures
        exists|lane: Lane| #[trigger] took_from(before, after, idx, lane, task),
        after.parked == before.parked,
        after.shutdown == before.shutdown,
{
    let i = idx as int;
    let own = Lane::Deque(idx);
    if before.workers[i]->0.deque.len() > 0 {
        assert(took_from(before, after, idx, own, task));
    } else {
        let (stop, batch) = choose|stop: int, batch: int|
            #![trigger before.stolen(i, before.source(i, stop), batch, before.rng_at(i, stop))]
            {
                &&& 0 <= stop < before.stops()
                &&& 0 <= batch < before.stop_items(i, stop).len()
                &&& task == before.stop_items(i, stop)[0]
                &&& after == before.stolen(
                    i,
                    before.source(i, stop),
                    batch,
                    before.rng_at(i, stop),
                )
            };
        source_is_in_range(before, i, stop);
        let lane = match before.source(i, stop) {
            Source::Shard(j) => Lane::Shard(j as usize),
            Source::Peer(v) => Lane::Deque(v as usize),
        };
        assert(lane_source(lane) == before.source(i, stop));
        lemma_stolen_is_taken(before, after, idx, lane, batch, before.rng_at(i, stop), task);
    }
}

/// A scan that finds nothing leaves every task where it was. No deque holds one then, and a shard
/// holds one exactly if a steal was lost.
pub proof fn scan_without_a_find_moves_nothing(
    queue: &mut Queue,
    idx: usize,
    probe: Probe,
    scan: Scan,
)
    requires
        call_ensures(Queue::scan, (queue, idx, probe), scan),
        has_lane(queue@, Lane::Deque(idx)),
        queue@.shards.len() <= usize::MAX,
        queue@.workers.len() <= usize::MAX,
        scan.found is None,
    ensures
        same_lines(old(queue)@, final(queue)@),
        final(queue)@.parked == old(queue)@.parked,
        final(queue)@.shutdown == old(queue)@.shutdown,
        forall|v: usize| #[trigger]
            has_lane(old(queue)@, Lane::Deque(v)) ==> line(old(queue)@, Lane::Deque(v)).len() == 0,
        scan.contended == exists|j: usize| #[trigger]
            has_lane(old(queue)@, Lane::Shard(j)) && line(old(queue)@, Lane::Shard(j)).len() > 0,
{
    lemma_nothing_moved(queue@, final(queue)@, idx, scan);
}

pub(crate) proof fn lemma_nothing_moved(
    before: QueueView,
    after: QueueView,
    idx: usize,
    scan: Scan,
)
    requires
        scanned(before, after, idx as int, scan),
        has_lane(before, Lane::Deque(idx)),
        before.shards.len() <= usize::MAX,
        before.workers.len() <= usize::MAX,
        scan.found is None,
    ensures
        same_lines(before, after),
        after.parked == before.parked,
        after.shutdown == before.shutdown,
        forall|v: usize| #[trigger]
            has_lane(before, Lane::Deque(v)) ==> line(before, Lane::Deque(v)).len() == 0,
        scan.contended == exists|j: usize| #[trigger]
            has_lane(before, Lane::Shard(j)) && line(before, Lane::Shard(j)).len() > 0,
{
    assert(before.deque(idx as int).len() == 0);
    assert(line(before, Lane::Deque(idx)) =~= Seq::<u64>::empty());
    assert forall|v: usize| #[trigger] has_lane(before, Lane::Deque(v)) implies line(
        before,
        Lane::Deque(v),
    ).len() == 0 by {
        assert(before.deque(v as int).len() == 0);
    }
    if scan.contended {
        let j = choose|j: int| 0 <= j < before.shards.len() && (#[trigger] before.shards[j]).len()
            > 0;
        assert(has_lane(before, Lane::Shard(j as usize)));
    }
}

/// Of two tasks in one lane the one that joined it first is handed out first: a scan never hands
/// out the later one, and where both still wait in one lane, they wait in the same order.
pub proof fn earlier_task_goes_first(
    queue: &mut Queue,
    idx: usize,
    probe: Probe,
    scan: Scan,
    lane: Lane,
    earlier: int,
    later: int,
)
    requires
        call_ensures(Queue::scan, (queue, idx, probe), scan),
        has_lane(queue@, Lane::Deque(idx)),
        0 < queue@.shards.len() <= usize::MAX,
        queue@.workers.len() <= usize::MAX,
        waits_once(queue@),
        has_lane(queue@, lane),
        0 <= earlier < later < line(queue@, lane).len(),
    ensures
        scan.found != Some(line(old(queue)@, lane)[later]),
        forall|m: Lane, p: int, q: int|
            #![trigger line(final(queue)@, m)[p], line(final(queue)@, m)[q]]
            has_lane(final(queue)@, m) && 0 <= p < line(final(queue)@, m).len() && 0 <= q < line(
                final(queue)@,
                m,
            ).len() && line(final(queue)@, m)[p] == line(old(queue)@, lane)[earlier] && line(
                final(queue)@,
                m,
            )[q] == line(old(queue)@, lane)[later] ==> p < q,
{
    match scan.found {
        Some(task) => {
            found_task_stood_in_front(queue, idx, probe, scan, task);
            let from = choose|from: Lane| #[trigger]
                took_from(queue@, final(queue)@, idx, from, task);
            lemma_order_kept(queue@, final(queue)@, idx, from, task, lane, earlier, later);
        },
        None => {
            scan_without_a_find_moves_nothing(queue, idx, probe, scan);
        },
    }
}

pub(crate) proof fn lemma_order_kept(
    before: QueueView,
    after: QueueView,
    idx: usize,
    from: Lane,
    task: u64,
    lane: Lane,
    earlier: int,
    later: int,
)
    requires
        took_from(before, after, idx, from, task),
        has_lane(before, Lane::Deque(idx)),
        waits_once(before),
        has_lane(before, lane),
        0 <= earlier < later < line(before, lane).len(),
    ensures
        task != line(before, lane)[later],
        forall|m: Lane, p: int, q: int|
            #![trigger line(after, m)[p], line(after, m)[q]]
            has_lane(after, m) && 0 <= p < line(after, m).len() && 0 <= q < line(after, m).len()
                && line(after, m)[p] == line(before, lane)[earlier] && line(after, m)[q] == line(
                before,
                lane,
            )[later] ==> p < q,
{
    let own = Lane::Deque(idx);
    assert(line(before, from)[0] == task);
    assert forall|m: Lane, p: int, q: int|
        #![trigger line(after, m)[p], line(after, m)[q]]
        has_lane(after, m) && 0 <= p < line(after, m).len() && 0 <= q < line(after, m).len()
            && line(after, m)[p] == line(before, lane)[earlier] && line(after, m)[q] == line(
            before,
            lane,
        )[later] implies p < q by {
        assert(has_lane(before, m));
        if m != own && m != from {
            assert(line(after, m) == line(before, m));
        } else if from == own {
            assert(line(after, own)[p] == line(before, own)[p + 1]);
            assert(line(after, own)[q] == line(before, own)[q + 1]);
        } else {
            let rest = line(before, from).skip(1);
            let moved = line(after, own);
            let both = moved + line(after, from);
            assert(both == rest && rest.len() == line(before, from).len() - 1);
            if m == own {
                assert(both[p] == moved[p] && both[q] == moved[q]);
                assert(rest[p] == line(before, from)[p + 1]);
                assert(rest[q] == line(before, from)[q + 1]);
            } else {
                let n = moved.len() as int;
                assert(both[n + p] == line(after, from)[p] && both[n + q] == line(after, from)[q]);
                assert(rest[n + p] == line(before, from)[n + p + 1]);
                assert(rest[n + q] == line(before, from)[n + q + 1]);
            }
        }
    }
}

/// One draw of a worker's generator.
pub open spec fn drawn(x: u32) -> u32 {
    let a = x ^ (x << 13);
    let b = a ^ (a >> 17);
    b ^ (b << 5)
}

/// Worker `idx`'s generator after the draw for the other shards, if there are any.
pub open spec fn drawn_for_shards(queue: QueueView, idx: usize) -> u32 {
    let rng = queue.workers[idx as int]->0.rng;
    if queue.shards.len() > 1 {
        drawn(rng)
    } else {
        rng
    }
}

/// Worker `idx`'s generator after the draw for the other workers, if there are any.
pub open spec fn drawn_for_workers(queue: QueueView, idx: usize) -> u32 {
    let rng = drawn_for_shards(queue, idx);
    if queue.workers.len() > 1 {
        drawn(rng)
    } else {
        rng
    }
}

/// What a scan makes of the generators: worker `idx`'s is not drawn for a task of its own, is drawn
/// for the other shards and the other workers if nothing was found, and else as far as the way
/// went. No other worker's changes.
pub open spec fn drawn_as_needed(
    before: QueueView,
    after: QueueView,
    idx: usize,
    found: bool,
) -> bool {
    let was = before.workers[idx as int]->0.rng;
    let now = after.workers[idx as int]->0.rng;
    &&& line(before, Lane::Deque(idx)).len() > 0 ==> now == was
    &&& found ==> now == was || now == drawn_for_shards(before, idx) || now == drawn_for_workers(
        before,
        idx,
    )
    &&& !found ==> now == drawn_for_workers(before, idx)
    &&& forall|v: int|
        0 <= v < before.workers.len() && v != idx && (#[trigger] before.workers[v]) is Some
            ==> after.workers[v]->0.rng == before.workers[v]->0.rng
}

pub(crate) proof fn lemma_drawn_as_needed(
    before: QueueView,
    after: QueueView,
    idx: usize,
    scan: Scan,
)
    requires
        scanned(before, after, idx as int, scan),
        has_lane(before, Lane::Deque(idx)),
        0 < before.shards.len() <= usize::MAX,
        before.workers.len() <= usize::MAX,
    ensures
        drawn_as_needed(before, after, idx, scan.found is Some),
{
    let i = idx as int;
    if before.deque(i).len() == 0 {
        if let Some(task) = scan.found {
            lemma_found_in_front(before, after, idx, scan, task);
            let (stop, batch) = choose|stop: int, batch: int|
                #![trigger before.stolen(i, before.source(i, stop), batch, before.rng_at(i, stop))]
                {
                    &&& 0 <= stop < before.stops()
                    &&& 0 <= batch < before.stop_items(i, stop).len()
                    &&& after == before.stolen(
                        i,
                        before.source(i, stop),
                        batch,
                        before.rng_at(i, stop),
                    )
                };
            source_is_in_range(before, i, stop);
        }
    }
}

/// The lanes in which a scan looks after the worker's own, in this order: the worker's preferred
/// shard, then every other shard from a drawn start on, then every other worker's deque from a
/// drawn start on.
pub open spec fn nth_lane(queue: QueueView, idx: usize, k: int) -> Lane {
    let n = queue.shards.len() as int;
    let w = queue.workers.len() as int;
    let home = idx as int % n;
    if k == 0 {
        Lane::Shard(home as usize)
    } else if k < n {
        let ahead = (drawn_for_shards(queue, idx) as int % (n - 1) + (k - 1)) % (n - 1);
        Lane::Shard(((home + 1 + ahead) % n) as usize)
    } else {
        let ahead = (drawn_for_workers(queue, idx) as int % (w - 1) + (k - n)) % (w - 1);
        Lane::Deque(((idx + 1 + ahead) % w) as usize)
    }
}

/// A worker with an empty deque is handed the first task of the first filled lane on its way. Only
/// a shard can be passed by though it holds a task, and the scan tells that it was. The generator
/// is drawn once for the other shards and once for the other workers, as far as the way went.
pub proof fn first_filled_lane_is_served(
    queue: &mut Queue,
    idx: usize,
    probe: Probe,
    scan: Scan,
    task: u64,
)
    requires
        call_ensures(Queue::scan, (queue, idx, probe), scan),
        has_lane(queue@, Lane::Deque(idx)),
        0 < queue@.shards.len() <= usize::MAX,
        queue@.workers.len() <= usize::MAX,
        queue@.workers[idx as int]->0.deque.len() == 0,
        scan.found == Some(task),
    ensures
        ({
            let before = old(queue)@;
            let after = final(queue)@;
            let n = before.shards.len() as int;
            exists|k: int|
                {
                    &&& 0 <= k < n + before.workers.len() - 1
                    &&& took_from(before, after, idx, #[trigger] nth_lane(before, idx, k), task)
                    &&& after.workers[idx as int]->0.rng == if k == 0 {
                        before.workers[idx as int]->0.rng
                    } else if k < n {
                        drawn_for_shards(before, idx)
                    } else {
                        drawn_for_workers(before, idx)
                    }
                    &&& forall|e: int|
                        n <= e < k && has_lane(before, #[trigger] nth_lane(before, idx, e))
                            ==> line(before, nth_lane(before, idx, e)).len() == 0
                    &&& scan.contended == exists|e: int|
                        0 <= e < k && e < n && line(
                            before,
                            #[trigger] nth_lane(before, idx, e),
                        ).len() > 0
                }
        }),
{
    let before = queue@;
    let after = final(queue)@;
    let i = idx as int;
    let n = before.shards.len() as int;
    let (stop, batch) = choose|stop: int, batch: int|
        #![trigger before.stolen(i, before.source(i, stop), batch, before.rng_at(i, stop))]
        {
            &&& 0 <= stop < before.stops()
            &&& 0 <= batch < before.stop_items(i, stop).len()
            &&& task == before.stop_items(i, stop)[0]
            &&& scan.contended == before.passed_shard(i, stop)
            &&& !before.passed_peer(i, stop)
            &&& after == before.stolen(i, before.source(i, stop), batch, before.rng_at(i, stop))
        };
    assert forall|e: int| 0 <= e <= stop implies before.source(i, e) == lane_source(
        #[trigger] nth_lane(before, idx, e),
    ) && (has_lane(before, nth_lane(before, idx, e)) ==> line(before, nth_lane(before, idx, e))
        == before.stop_items(i, e)) by {
        source_is_in_range(before, i, e);
    }
    let lane = nth_lane(before, idx, stop);
    source_is_in_range(before, i, stop);
    lemma_stolen_is_taken(before, after, idx, lane, batch, before.rng_at(i, stop), task);
    if before.passed_shard(i, stop) {
        let e = choose|e: int|
            0 <= e < stop && e < n && (#[trigger] before.stop_items(i, e)).len() > 0;
        source_is_in_range(before, i, e);
        assert(line(before, nth_lane(before, idx, e)).len() > 0);
    }
    assert forall|e: int|
        0 <= e < stop && e < n && line(before, #[trigger] nth_lane(before, idx, e)).len()
            > 0 implies before.passed_shard(i, stop) by {
        source_is_in_range(before, i, e);
        assert(before.stop_items(i, e).len() > 0);
    }
    assert forall|e: int|
        n <= e < stop && has_lane(before, #[trigger] nth_lane(before, idx, e)) implies line(
        before,
        nth_lane(before, idx, e),
    ).len() == 0 by {
        assert(before.stop_items(i, e).len() == 0);
    }
}

/// A scan that finds nothing has drawn the generator once for the other shards and once for the
/// other workers, where there are any, and no other worker's generator.
pub proof fn scan_without_a_find_draws_for_each_round(
    queue: &mut Queue,
    idx: usize,
    probe: Probe,
    scan: Scan,
)
    requires
        call_ensures(Queue::scan, (queue, idx, probe), scan),
        has_lane(queue@, Lane::Deque(idx)),
        0 < queue@.shards.len(),
        scan.found is None,
    ensures
        final(queue)@.workers[idx as int]->0.rng == drawn_for_workers(old(queue)@, idx),
        forall|v: int|
            0 <= v < old(queue)@.workers.len() && v != idx ==> #[trigger] final(queue)@.workers[v]
                == old(queue)@.workers[v],
{
}

/// A worker that has nothing of its own is served by its preferred shard, if that holds a task and
/// no steal is lost; by some shard, if one holds a task and no steal is lost; and by another
/// worker, if only others hold tasks.
pub proof fn shards_are_served_before_other_workers(
    queue: &mut Queue,
    idx: usize,
    probe: Probe,
    scan: Scan,
)
    requires
        call_ensures(Queue::scan, (queue, idx, probe), scan),
        has_lane(queue@, Lane::Deque(idx)),
        0 < queue@.shards.len() <= usize::MAX,
        queue@.workers.len() <= usize::MAX,
        queue@.workers[idx as int]->0.deque.len() == 0,
    ensures
        ({
            let before = old(queue)@;
            let home = idx as int % before.shards.len() as int;
            before.shards[home].len() > 0 && !scan.contended ==> scan.found == Some(
                before.shards[home][0],
            )
        }),
        !scan.contended && (exists|j: int|
            0 <= j < old(queue)@.shards.len() && (#[trigger] old(queue)@.shards[j]).len() > 0)
            ==> exists|j: int|
            0 <= j < old(queue)@.shards.len() && (#[trigger] old(queue)@.shards[j]).len() > 0
                && scan.found == Some(old(queue)@.shards[j][0]),
        (forall|j: int|
            0 <= j < old(queue)@.shards.len() ==> (#[trigger] old(queue)@.shards[j]).len() == 0)
            ==> !scan.contended && (forall|v: int|
            0 <= v < old(queue)@.workers.len() && (#[trigger] old(queue)@.workers[v]) is Some
                && old(queue)@.workers[v]->0.deque.len() > 0 ==> scan.found is Some) && (
        scan.found matches Some(task) ==> exists|v: int|
            0 <= v < old(queue)@.workers.len() && v != idx && (#[trigger] old(
                queue,
            )@.workers[v]) is Some && old(queue)@.workers[v]->0.deque.len() > 0 && task == old(
                queue,
            )@.workers[v]->0.deque[0]),
{
    let before = queue@;
    let after = final(queue)@;
    let i = idx as int;
    let n = before.shards.len() as int;
    walk_misses_nothing(before, i);
    assert(before.deque(i).len() == 0);
    match scan.found {
        None => {
            assert(forall|v: int|
                0 <= v < before.workers.len() ==> (#[trigger] before.deque(v)).len() == 0);
            assert forall|v: int|
                0 <= v < before.workers.len() && (
                #[trigger] before.workers[v]) is Some implies before.workers[v]->0.deque.len()
                == 0 by {
                assert(before.deque(v).len() == 0);
            }
            if before.shards[i % n].len() > 0 {
                assert(before.shard_waits());
            }
        },
        Some(task) => {
            let (stop, batch) = choose|stop: int, batch: int|
                #![trigger before.stolen(i, before.source(i, stop), batch, before.rng_at(i, stop))]
                {
                    &&& 0 <= stop < before.stops()
                    &&& 0 <= batch < before.stop_items(i, stop).len()
                    &&& task == before.stop_items(i, stop)[0]
                    &&& scan.contended == before.passed_shard(i, stop)
                    &&& !before.passed_peer(i, stop)
                    &&& after == before.stolen(
                        i,
                        before.source(i, stop),
                        batch,
                        before.rng_at(i, stop),
                    )
                };
            source_is_in_range(before, i, stop);
            assert(before.stop_items(i, 0) == before.shards[i % n]);
            if before.shards[i % n].len() > 0 && !scan.contended {
                assert(stop == 0);
            }
            if before.passed_shard(i, stop) {
                let e = choose|e: int|
                    0 <= e < stop && e < n && (#[trigger] before.stop_items(i, e)).len() > 0;
                source_is_in_range(before, i, e);
                assert(before.shard_waits());
            }
            if stop >= n && before.shard_waits() {
                let e = choose|e: int|
                    0 <= e < before.stops() && e < n && (#[trigger] before.stop_items(i, e)).len()
                        > 0;
                assert(before.passed_shard(i, stop));
            }
            match before.source(i, stop) {
                Source::Shard(j) => {
                    assert(before.shards[j].len() > 0);
                },
                Source::Peer(v) => {
                    source_at_is_in_range(
                        i,
                        n,
                        before.workers.len() as int,
                        before.workers[i]->0.rng,
                        stop,
                    );
                    assert(before.workers[v] is Some && before.workers[v]->0.deque.len() > 0);
                },
            }
        },
    }
}

/// Where nothing waits, a scan finds nothing, and tells that it was not disturbed.
pub proof fn empty_queue_gives_nothing(queue: &mut Queue, idx: usize, probe: Probe, scan: Scan)
    requires
        call_ensures(Queue::scan, (queue, idx, probe), scan),
        has_lane(queue@, Lane::Deque(idx)),
        0 < queue@.shards.len() <= usize::MAX,
        queue@.workers.len() <= usize::MAX,
        nothing_waits(queue@),
    ensures
        scan.found is None,
        !scan.contended,
{
    match scan.found {
        Some(task) => {
            found_task_stood_in_front(queue, idx, probe, scan, task);
        },
        None => {
            scan_without_a_find_moves_nothing(queue, idx, probe, scan);
        },
    }
}

} // verus!
