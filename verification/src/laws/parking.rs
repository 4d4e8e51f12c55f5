//! How a worker searches, falls asleep and is woken.

use crate::laws::lanes::{
    drawn_as_needed, has_lane, lemma_drawn_as_needed, lemma_found_in_front, lemma_nothing_moved,
    lemma_order_kept, line, nothing_waits, same_lines, took_from, waits_once, Lane,
};
use crate::park::{
    after_scan, PopAction, PopLoop, PopStage, Seen, WakeAction, WakeWalk, WorkerParker,
};
use crate::queue::{scanned, Queue, QueueView, Scan};
use vstd::prelude::*;

verus! {

/// A sleeper is claimed once: the first claim finds it, and a second one does not. A worker that
/// is awake, or was released, is not claimed.
pub proof fn sleeper_is_claimed_once(
    parker: &mut WorkerParker,
    first: bool,
    again: &mut WorkerParker,
    second: bool,
)
    requires
        call_ensures(WorkerParker::claim, (parker,), first),
        call_ensures(WorkerParker::claim, (again,), second),
        *again == *final(parker),
    ensures
        first == old(parker).blocked,
        !second,
        !final(parker).blocked,
        !final(again).blocked,
{
}

/// A new worker is awake, and a released one is.
pub proof fn released_worker_is_awake(fresh: WorkerParker, parker: &mut WorkerParker)
    requires
        call_ensures(WorkerParker::new, (), fresh),
        call_ensures(WorkerParker::release, (parker,), ()),
    ensures
        !fresh.blocked,
        !final(parker).blocked,
{
}

/// A worker that falls asleep can be claimed until it wakes up. It stays the same worker.
pub proof fn sleeper_can_be_claimed(
    pop: &mut PopLoop,
    parker: &mut WorkerParker,
    claimant: &mut WorkerParker,
    claimed: bool,
)
    requires
        call_ensures(PopLoop::fall_asleep, (pop, parker), ()),
        call_ensures(WorkerParker::claim, (claimant,), claimed),
        *claimant == *final(parker),
    ensures
        claimed,
        final(pop).stage is Asleep,
        final(pop).idx == old(pop).idx,
{
}

/// A worker that wakes up is no longer to be claimed and no longer counted, and begins to search
/// again. The tasks stay where they are.
pub proof fn woken_worker_searches_again(
    pop: &mut PopLoop,
    parker: &mut WorkerParker,
    queue: &mut Queue,
)
    requires
        call_ensures(PopLoop::wake_up, (pop, parker, queue), ()),
    ensures
        final(pop).stage is Scanning,
        final(pop).idx == old(pop).idx,
        !final(parker).blocked,
        final(queue)@.parked == one_less(old(queue)@.parked),
        final(queue)@.shards == old(queue)@.shards,
        final(queue)@.workers == old(queue)@.workers,
        final(queue)@.shutdown == old(queue)@.shutdown,
{
}

/// The search for a sleeper begins at the worker of the hint's remainder, without waiting.
pub proof fn walk_begins_at_the_hint(
    hint: usize,
    workers: usize,
    walk: WakeWalk,
    action: WakeAction,
)
    requires
        call_ensures(WakeWalk::new, (hint, workers), walk),
        call_ensures(WakeWalk::next, (&walk,), action),
        0 < workers,
    ensures
        action == WakeAction::TryLock((hint as int % workers as int) as usize),
        walk.workers == workers,
        walk.visited == 0,
{
    vstd::arithmetic::div_mod::lemma_mod_twice(hint as int, workers as int);
}

/// What the producer does next. With a worker claimed it is done, and has claimed one. With every
/// parker of the pass gone by it is done without. Else it looks at the next parker from the start
/// on, and waits for it on the second pass only.
pub proof fn walk_looks_at_the_next_parker(walk: WakeWalk, action: WakeAction)
    requires
        call_ensures(WakeWalk::next, (&walk,), action),
        0 < walk.workers,
        walk.start < walk.workers,
        walk.visited <= walk.workers,
    ensures
        walk.claimed ==> action == WakeAction::Done(true),
        !walk.claimed && walk.visited == walk.workers ==> action == WakeAction::Done(false),
        !walk.claimed && walk.visited < walk.workers ==> ({
            let next = if walk.start + walk.visited < walk.workers {
                walk.start + walk.visited
            } else {
                walk.start + walk.visited - walk.workers
            };
            action == if walk.waiting {
                WakeAction::Lock(next as usize)
            } else {
                WakeAction::TryLock(next as usize)
            }
        }),
{
    crate::rotation::reduce_once(walk.start + walk.visited, walk.workers as int);
}

/// What the producer saw leads on: a claim ends the walk; else the parker is gone by, and one that
/// was held is remembered. The last parker of the first pass leads to the second, from the same
/// start and now waiting, exactly if one was held; else to the end.
pub proof fn walk_goes_by_what_it_saw(
    walk: &mut WakeWalk,
    seen: Seen,
    action: WakeAction,
)
    requires
        call_ensures(WakeWalk::observe, (walk, seen), ()),
        call_ensures(WakeWalk::next, (final(walk),), action),
        0 < walk.workers,
        walk.start < walk.workers,
        walk.visited < walk.workers,
        !walk.claimed,
    ensures
        final(walk).workers == old(walk).workers,
        final(walk).start == old(walk).start,
        seen == Seen::Claimed ==> action == WakeAction::Done(true),
        seen != Seen::Claimed ==> !final(walk).claimed,
        seen == Seen::Busy ==> final(walk).contended,
        seen != Seen::Busy ==> final(walk).contended == old(walk).contended,
        seen != Seen::Claimed && old(walk).visited + 1 < old(walk).workers ==> final(walk).visited
            == old(walk).visited + 1 && final(walk).waiting == old(walk).waiting,
        seen != Seen::Claimed && old(walk).visited + 1 == old(walk).workers ==> ({
            let held = seen == Seen::Busy || old(walk).contended;
            if held && !old(walk).waiting {
                final(walk).visited == 0 && final(walk).waiting && action == WakeAction::Lock(
                    old(walk).start,
                )
            } else {
                action == WakeAction::Done(false)
            }
        }),
{
    if final(walk).visited == 0 {
        crate::rotation::reduce_once(walk.start as int, walk.workers as int);
    }
}

/// A worker begins to search at once.
pub proof fn new_search_scans(idx: usize, pop: PopLoop)
    requires
        call_ensures(PopLoop::new, (idx,), pop),
    ensures
        pop.idx == idx,
        pop.stage is Scanning,
{
}

/// Worker `idx` took `task` from the front of some lane.
pub open spec fn took(before: QueueView, after: QueueView, idx: usize, task: u64) -> bool {
    exists|lane: Lane| #[trigger] took_from(before, after, idx, lane, task)
}

/// The tasks that a step leaves in the queue, and the task that it hands out.
pub open spec fn handed(
    before: QueueView,
    after: QueueView,
    idx: usize,
    action: PopAction,
) -> bool {
    match action {
        PopAction::Run(task) => took(before, after, idx, task),
        _ => same_lines(before, after),
    }
}

/// A step hands out a task from the front of a lane, or none and leaves every task where it was. A
/// worker with tasks of its own that scans is handed the one that was pushed there first. The
/// order to shut down stays.
pub proof fn step_hands_out_in_order(pop: &mut PopLoop, queue: &mut Queue, action: PopAction)
    requires
        call_ensures(PopLoop::step, (pop, queue), action),
        has_lane(queue@, Lane::Deque(pop.idx)),
        0 < queue@.shards.len() <= usize::MAX,
        queue@.workers.len() <= usize::MAX,
    ensures
        handed(old(queue)@, final(queue)@, old(pop).idx, action),
        final(queue)@.shutdown == old(queue)@.shutdown,
        final(pop).idx == old(pop).idx,
        (old(pop).stage is Scanning || old(pop).stage is Spinning || old(pop).stage is Armed)
            && line(old(queue)@, Lane::Deque(old(pop).idx)).len() > 0 ==> action == PopAction::Run(
            line(old(queue)@, Lane::Deque(old(pop).idx))[0],
        ) && line(final(queue)@, Lane::Deque(old(pop).idx)) == line(
            old(queue)@,
            Lane::Deque(old(pop).idx),
        ).skip(1),
{
    lemma_step(*pop, queue@, *final(pop), final(queue)@, action);
}

pub(crate) proof fn lemma_step(
    pop: PopLoop,
    before: QueueView,
    pop_after: PopLoop,
    after: QueueView,
    action: PopAction,
)
    requires
        crate::park::popped(pop, before, pop_after, after, action),
        has_lane(before, Lane::Deque(pop.idx)),
        0 < before.shards.len() <= usize::MAX,
        before.workers.len() <= usize::MAX,
    ensures
        handed(before, after, pop.idx, action),
        after.shutdown == before.shutdown,
        pop_after.idx == pop.idx,
        (pop.stage is Scanning || pop.stage is Spinning || pop.stage is Armed) && line(
            before,
            Lane::Deque(pop.idx),
        ).len() > 0 ==> action == PopAction::Run(line(before, Lane::Deque(pop.idx))[0]) && line(
            after,
            Lane::Deque(pop.idx),
        ) == line(before, Lane::Deque(pop.idx)).skip(1),
        !(action is Run) && (pop.stage is Scanning || pop.stage is Spinning || pop.stage is Armed)
            ==> forall|v: usize| #[trigger]
            has_lane(before, Lane::Deque(v)) ==> line(before, Lane::Deque(v)).len() == 0,
{
    let idx = pop.idx;
    match pop.stage {
        PopStage::Scanning | PopStage::Spinning(_) => {
            let scan = choose|scan: Scan|
                {
                    &&& #[trigger] scanned(before, after, idx as int, scan)
                    &&& (pop_after.stage, action) == after_scan(pop.stage, scan)
                };
            assert(action == after_scan(pop.stage, scan).1);
            match scan.found {
                Some(task) => {
                    lemma_found_in_front(before, after, idx, scan, task);
                    assert(took(before, after, idx, task));
                },
                None => {
                    lemma_nothing_moved(before, after, idx, scan);
                },
            }
        },
        PopStage::Armed => {
            let same = after.with_parked(before.parked);
            let scan = choose|scan: Scan|
                {
                    &&& #[trigger] scanned(before, same, idx as int, scan)
                    &&& match scan.found {
                        Some(task) => action == PopAction::Run(task),
                        None => action == PopAction::Again,
                    }
                };
            match scan.found {
                Some(task) => {
                    lemma_found_in_front(before, same, idx, scan, task);
                    let lane = choose|lane: Lane| #[trigger]
                        took_from(before, same, idx, lane, task);
                    assert forall|other: Lane|
                        #![trigger has_lane(after, other)]
                        #![trigger has_lane(before, other)]
                        has_lane(after, other) == has_lane(before, other) by {
                        assert(has_lane(same, other) == has_lane(before, other));
                    }
                    assert forall|other: Lane| #[trigger]
                        has_lane(before, other) && other != Lane::Deque(idx) && other
                            != lane implies line(after, other) == line(before, other) by {
                        assert(line(same, other) == line(before, other));
                    }
                    assert(line(same, Lane::Deque(idx)) == line(after, Lane::Deque(idx)));
                    assert(line(same, lane) == line(after, lane));
                    assert(took_from(before, after, idx, lane, task));
                    assert(took(before, after, idx, task));
                },
                None => {
                    lemma_nothing_moved(before, same, idx, scan);
                    assert forall|other: Lane|
                        #![trigger has_lane(after, other)]
                        #![trigger has_lane(before, other)]
                        has_lane(after, other) == has_lane(before, other) by {
                        assert(has_lane(same, other) == has_lane(before, other));
                    }
                    assert forall|other: Lane| #[trigger] has_lane(before, other) implies line(
                        after,
                        other,
                    ) == line(before, other) by {
                        assert(line(same, other) == line(before, other));
                    }
                    assert(same_lines(before, after));
                },
            }
        },
        _ => {
            assert(same_lines(before, after));
        },
    }
}

/// Of two tasks in one lane, a step never hands out the later one, and where both still wait in
/// one lane, they wait in the same order.
pub proof fn step_keeps_the_order(
    pop: &mut PopLoop,
    queue: &mut Queue,
    action: PopAction,
    lane: Lane,
    earlier: int,
    later: int,
)
    requires
        call_ensures(PopLoop::step, (pop, queue), action),
        has_lane(queue@, Lane::Deque(pop.idx)),
        0 < queue@.shards.len() <= usize::MAX,
        queue@.workers.len() <= usize::MAX,
        waits_once(queue@),
        has_lane(queue@, lane),
        0 <= earlier < later < line(queue@, lane).len(),
    ensures
        action != PopAction::Run(line(old(queue)@, lane)[later]),
        forall|m: Lane, p: int, q: int|
            #![trigger line(final(queue)@, m)[p], line(final(queue)@, m)[q]]
            has_lane(final(queue)@, m) && 0 <= p < line(final(queue)@, m).len() && 0 <= q < line(
                final(queue)@,
                m,
            ).len() && line(final(queue)@, m)[p] == line(old(queue)@, lane)[earlier] && line(
                final(queue)@,
                m,
            )[q] == line(old(queue)@, lane)[later] ==> p < q,
{
    lemma_step(*pop, queue@, *final(pop), final(queue)@, action);
    if let PopAction::Run(task) = action {
        let from = choose|from: Lane| #[trigger]
            took_from(queue@, final(queue)@, pop.idx, from, task);
        lemma_order_kept(queue@, final(queue)@, pop.idx, from, task, lane, earlier, later);
    }
}

/// One more on the counter of parked workers, which wraps.
pub open spec fn one_more(parked: usize) -> int {
    if parked == usize::MAX {
        0
    } else {
        parked + 1
    }
}

/// One less on the counter of parked workers, which wraps.
pub open spec fn one_less(parked: usize) -> int {
    if parked == 0 {
        usize::MAX as int
    } else {
        parked - 1
    }
}

/// How a worker's step leads on from the stage that it was in.
///
/// Scanning: with a task the worker runs it, and then begins anew. With a steal lost it scans
/// again, in the same round. With nothing there it spins before three more scans, yields before
/// four more, and then takes its parker's lock. It is not counted.
///
/// With its parker's lock it counts itself, and scans a last time. With a task it is no longer
/// counted, runs the task, and then begins anew. With a steal lost it scans again. With nothing
/// there it looks for the order to shut down: with it, the worker ends, and is no longer counted;
/// without it, it goes to sleep, and stays counted.
pub open spec fn led_on(
    pop: PopLoop,
    before: QueueView,
    pop_after: PopLoop,
    after: QueueView,
    action: PopAction,
) -> bool {
    &&& pop_after.idx == pop.idx
    &&& after.shutdown == before.shutdown
    &&& pop.stage is Scanning || pop.stage is Spinning || pop.stage is Armed ==> drawn_as_needed(
        before,
        after,
        pop.idx,
        action is Run,
    )
    &&& pop.stage is Scanning || (pop.stage is Spinning && pop.stage->0 < 7) ==> {
        let round = if pop.stage is Spinning {
            pop.stage->0 + 1
        } else {
            0
        };
        &&& after.parked == before.parked
        &&& match action {
            PopAction::Run(_) => pop_after.stage is Scanning,
            PopAction::Again => pop_after.stage == pop.stage && !nothing_waits(before),
            PopAction::Spin => nothing_waits(before) && round < 3 && pop_after.stage
                == PopStage::Spinning(round as u32),
            PopAction::Yield => nothing_waits(before) && 3 <= round < 7 && pop_after.stage
                == PopStage::Spinning(round as u32),
            PopAction::Lock => nothing_waits(before) && round == 7 && pop_after.stage is Locked,
            PopAction::Exit | PopAction::Sleep => false,
        }
        &&& nothing_waits(before) ==> action !is Run
    }
    &&& pop.stage is Locked ==> {
        &&& action is Again
        &&& pop_after.stage is Armed
        &&& after.parked == one_more(before.parked)
        &&& after.shards == before.shards
        &&& after.workers == before.workers
    }
    &&& pop.stage is Armed ==> match action {
        PopAction::Run(_) => {
            &&& pop_after.stage is Scanning
            &&& after.parked == one_less(before.parked)
            &&& !nothing_waits(before)
        },
        PopAction::Again => {
            &&& pop_after.stage is Checking == nothing_waits(before)
            &&& pop_after.stage is Armed == !nothing_waits(before)
            &&& after.parked == before.parked
        },
        _ => false,
    }
    &&& pop.stage is Checking ==> {
        &&& after.shards == before.shards
        &&& after.workers == before.workers
        &&& before.shutdown ==> action is Exit && pop_after.stage is Exited && after.parked
            == one_less(before.parked)
        &&& !before.shutdown ==> action is Sleep && pop_after.stage is Committed && after.parked
            == before.parked
    }
}

/// A step leads on from its stage, whatever is in the queue.
pub proof fn step_leads_on(pop: &mut PopLoop, queue: &mut Queue, action: PopAction)
    requires
        call_ensures(PopLoop::step, (pop, queue), action),
        has_lane(queue@, Lane::Deque(pop.idx)),
        0 < queue@.shards.len() <= usize::MAX,
        queue@.workers.len() <= usize::MAX,
    ensures
        led_on(*old(pop), old(queue)@, *final(pop), final(queue)@, action),
{
    lemma_led_on(*pop, queue@, *final(pop), final(queue)@, action);
}

/// Where a scan finds nothing and loses nothing, nothing waits.
proof fn lemma_nothing_waits(before: QueueView, after: QueueView, idx: usize, scan: Scan)
    requires
        scanned(before, after, idx as int, scan),
        has_lane(before, Lane::Deque(idx)),
        0 < before.shards.len() <= usize::MAX,
        before.workers.len() <= usize::MAX,
    ensures
        nothing_waits(before) == (scan.found is None && !scan.contended),
{
    match scan.found {
        Some(task) => lemma_found_in_front(before, after, idx, scan, task),
        None => {
            lemma_nothing_moved(before, after, idx, scan);
            if scan.contended {
                let j = choose|j: usize| #[trigger]
                    has_lane(before, Lane::Shard(j)) && line(before, Lane::Shard(j)).len() > 0;
                assert(has_lane(before, Lane::Shard(j)));
            } else {
                assert forall|lane: Lane| #[trigger] has_lane(before, lane) implies line(
                    before,
                    lane,
                ).len() == 0 by {
                    match lane {
                        Lane::Shard(j) => {
                            assert(has_lane(before, Lane::Shard(j)));
                        },
                        Lane::Deque(v) => {
                            assert(has_lane(before, Lane::Deque(v)));
                        },
                    }
                }
            }
        },
    }
}

pub(crate) proof fn lemma_led_on(
    pop: PopLoop,
    before: QueueView,
    pop_after: PopLoop,
    after: QueueView,
    action: PopAction,
)
    requires
        crate::park::popped(pop, before, pop_after, after, action),
        has_lane(before, Lane::Deque(pop.idx)),
        0 < before.shards.len() <= usize::MAX,
        before.workers.len() <= usize::MAX,
    ensures
        led_on(pop, before, pop_after, after, action),
{
    let idx = pop.idx;
    match pop.stage {
        PopStage::Scanning | PopStage::Spinning(_) => {
            let scan = choose|scan: Scan|
                {
                    &&& #[trigger] scanned(before, after, idx as int, scan)
                    &&& (pop_after.stage, action) == after_scan(pop.stage, scan)
                };
            assert(action == after_scan(pop.stage, scan).1);
            lemma_nothing_waits(before, after, idx, scan);
            lemma_drawn_as_needed(before, after, idx, scan);
            match scan.found {
                Some(task) => lemma_found_in_front(before, after, idx, scan, task),
                None => lemma_nothing_moved(before, after, idx, scan),
            }
        },
        PopStage::Armed => {
            let same = after.with_parked(before.parked);
            let scan = choose|scan: Scan|
                {
                    &&& #[trigger] scanned(before, same, idx as int, scan)
                    &&& match scan.found {
                        Some(task) => {
                            &&& after.parked == before.parked.wrapping_sub(1)
                            &&& pop_after.stage == PopStage::Scanning
                            &&& action == PopAction::Run(task)
                        },
                        None => {
                            &&& after.parked == before.parked
                            &&& pop_after.stage == if scan.contended {
                                PopStage::Armed
                            } else {
                                PopStage::Checking
                            }
                            &&& action == PopAction::Again
                        },
                    }
                };
            lemma_nothing_waits(before, same, idx, scan);
            lemma_drawn_as_needed(before, same, idx, scan);
            match scan.found {
                Some(task) => lemma_found_in_front(before, same, idx, scan, task),
                None => lemma_nothing_moved(before, same, idx, scan),
            }
        },
        _ => {},
    }
}

} // verus!
