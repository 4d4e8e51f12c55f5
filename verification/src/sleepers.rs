//! Why no wake-up is lost, whatever the workers that run tasks are busy with.
//!
//! A worker inside a task may stay there for as long as the task likes, and may even wait for a task
//! that it has pushed itself. So it does not count as one that will take what waits. As long as
//! some worker sleeps, every waiting task is covered by a worker that searches or was claimed, or
//! by a producer on its way that cannot miss the sleeper.

use crate::conservation::empty_means_no_tasks;
use crate::handshake::{
    counted, initial_world_is_sound, is_counted, last_scan_sees_empty_queue, lemma_counted_bound,
    steps, Step, World,
};
use crate::park::{PopAction, PopStage, Seen, WakeWalk};
use crate::rotation::reduce_once;
use crate::runs::{lemma_shorter, lemma_step_account, run_keeps_the_invariant, Run};
use vstd::prelude::*;
use vstd::set_lib::{lemma_int_range, lemma_len_subset, set_int_range};

verus! {

/// The workers inside a task after a step, if `busy` were before it: a worker enters a task when
/// it is told to run it, and has left it when it searches again, or when another starts in its
/// place.
pub open spec fn busy_after(busy: Set<int>, step: Step) -> Set<int> {
    match step {
        Step::Work { worker, action: PopAction::Run(_) } => busy.insert(worker),
        Step::Work { worker, .. } => busy.remove(worker),
        Step::Start { worker } => busy.remove(worker),
        _ => busy,
    }
}

/// The workers inside a task at the end of a run.
pub open spec fn busy(run: Run) -> Set<int>
    decreases run.steps.len(),
{
    if run.steps.len() == 0 {
        Set::empty()
    } else {
        busy_after(busy(run.shorter()), run.steps.last())
    }
}

/// Parker `i` is still ahead of the walk in the pass that it is in.
pub open spec fn is_ahead(walk: WakeWalk, i: int) -> bool {
    walk.visited <= (i - walk.start) % (walk.workers as int)
}

/// The walk will look at parker `i`, unless it claims another worker before: it is still ahead, or
/// the walk will make another pass.
pub open spec fn is_due(walk: WakeWalk, i: int) -> bool {
    !walk.is_done() && (!walk.waiting && walk.contended || is_ahead(walk, i))
}

/// The workers that are on their way to the queue: they are neither dormant nor inside a task.
pub open spec fn ready(w: World, busy: Set<int>) -> Set<int> {
    Set::new(|j: int| 0 <= j < w.pops.len() && !w.is_dormant(j) && !busy.contains(j))
}

/// The producers that are on their way to parker `i`.
pub open spec fn due(w: World, i: int) -> Set<int> {
    Set::new(|p: int| w.walks.contains_key(p) && is_due(w.walks[p], i))
}

/// For each waiting task there is a worker on its way to the queue, or a producer on its way to the
/// sleeping worker `i`.
pub open spec fn is_covered(w: World, busy: Set<int>, i: int) -> bool {
    w.queue.tasks().len() <= ready(w, busy).len() + due(w, i).len()
}

/// A worker inside a task is between two searches, and while a worker sleeps, every waiting task
/// is covered.
pub open spec fn all_covered(w: World, busy: Set<int>) -> bool {
    &&& forall|j: int| #[trigger]
        busy.contains(j) ==> 0 <= j < w.pops.len() && w.pops[j].stage == PopStage::Scanning
    &&& !w.queue.shutdown ==> forall|i: int|
        0 <= i < w.pops.len() && #[trigger] w.is_dormant(i) ==> is_covered(w, busy, i)
}

proof fn lemma_finite(w: World, busy: Set<int>, i: int)
    requires
        w.inv(),
    ensures
        ready(w, busy).finite(),
        due(w, i).finite(),
{
    lemma_int_range(0, w.pops.len() as int);
    lemma_len_subset(ready(w, busy), set_int_range(0, w.pops.len() as int));
    lemma_len_subset(due(w, i), w.walks.dom());
}

/// A walk that goes by a worker that is not dormant is still due at each that is.
proof fn lemma_look_stays_due(w: World, walk: WakeWalk, seen: Seen, i: int)
    requires
        walk.wf(),
        walk.workers == w.pops.len(),
        !walk.is_done(),
        w.can_see(walk.place(), walk.waiting, seen),
        seen != Seen::Claimed,
        0 <= i < w.pops.len(),
        w.is_dormant(i),
        is_due(walk, i),
    ensures
        is_due(walk.after(seen), i),
{
    let n = walk.workers as int;
    reduce_once(walk.start + walk.visited, n);
    reduce_once(i - walk.start, n);
    if seen == Seen::Awake {
        assert(walk.place() != i);
    }
}

proof fn lemma_look_covers(w: World, n: World, busy: Set<int>, producer: int, seen: Seen, i: int)
    requires
        w.inv(),
        all_covered(w, busy),
        steps(w, n, Step::Look { producer, seen }),
        !n.queue.shutdown,
        0 <= i < n.pops.len(),
        n.is_dormant(i),
    ensures
        is_covered(n, busy, i),
{
    let walk = w.walks[producer];
    let place = walk.place();
    assert(0 <= place < w.pops.len());
    assert(w.is_dormant(i));
    assert(is_covered(w, busy, i));
    lemma_finite(w, busy, i);
    if seen == Seen::Claimed {
        assert(w.pops[place].stage == PopStage::Asleep);
        assert(!ready(w, busy).contains(place));
        assert(ready(n, busy) =~= ready(w, busy).insert(place));
        assert(due(n, i) =~= due(w, i).remove(producer));
    } else {
        assert(ready(n, busy) =~= ready(w, busy));
        if is_due(walk, i) {
            lemma_look_stays_due(w, walk, seen, i);
        }
        assert(due(w, i).subset_of(due(n, i)));
        assert(due(n, i).subset_of(due(w, i).insert(producer)));
        lemma_len_subset(due(n, i), due(w, i).insert(producer));
        lemma_len_subset(due(w, i), due(n, i));
    }
}

proof fn lemma_push_covers(w: World, n: World, busy: Set<int>, step: Step, i: int)
    requires
        w.inv(),
        all_covered(w, busy),
        steps(w, n, step),
        step is PushShard || step is PushLocal,
        !n.queue.shutdown,
        0 <= i < n.pops.len(),
        n.is_dormant(i),
    ensures
        is_covered(n, busy, i),
{
    let producer = match step {
        Step::PushShard { producer, .. } => producer,
        Step::PushLocal { producer, .. } => producer,
        _ => 0,
    };
    assert(w.is_dormant(i));
    assert(is_covered(w, busy, i));
    lemma_step_account(w, n, step);
    lemma_finite(w, busy, i);
    lemma_counted_bound(w.pops);
    assert(is_counted(w.pops[i]));
    assert(counted(w.pops) > 0);
    assert(n.walks.contains_key(producer));
    let walk = n.walks[producer];
    vstd::arithmetic::div_mod::lemma_mod_bound(i - walk.start, walk.workers as int);
    assert(is_due(walk, i));
    assert(ready(n, busy) =~= ready(w, busy));
    assert(due(n, i) =~= due(w, i).insert(producer));
    assert(!due(w, i).contains(producer));
}

proof fn lemma_work_covers(
    w: World,
    n: World,
    busy: Set<int>,
    worker: int,
    action: PopAction,
    i: int,
)
    requires
        w.inv(),
        all_covered(w, busy),
        steps(w, n, Step::Work { worker, action }),
        !n.queue.shutdown,
        !w.queue.shutdown,
        0 <= i < n.pops.len(),
        n.is_dormant(i),
    ensures
        is_covered(n, busy_after(busy, Step::Work { worker, action }), i),
{
    let step = Step::Work { worker, action };
    let later = busy_after(busy, step);
    assert(w.pops[worker].idx == worker);
    lemma_step_account(w, n, step);
    last_scan_sees_empty_queue(w.pops[worker], w.queue, n.pops[worker], n.queue, action);
    empty_means_no_tasks(w.queue);
    lemma_finite(w, busy, i);
    assert(due(n, i) =~= due(w, i));
    if n.pops[worker].stage == PopStage::Checking {
        // The last scan before sleep has seen the queue empty.
        assert(n.queue.tasks().len() == 0);
    } else if let PopAction::Run(task) = action {
        assert(w.queue.tasks().len() == n.queue.tasks().len() + 1);
        assert(i != worker);
        assert(w.is_dormant(i));
        assert(is_covered(w, busy, i));
        assert(!w.is_dormant(worker));
        assert(ready(n, later) =~= ready(w, busy).remove(worker));
    } else {
        assert(w.is_dormant(i));
        assert(is_covered(w, busy, i));
        if w.is_dormant(worker) {
            assert(n.is_dormant(worker));
            assert(ready(n, later) =~= ready(w, busy));
        } else {
            assert(!n.is_dormant(worker));
            assert(ready(n, later) =~= ready(w, busy).insert(worker));
        }
    }
}

proof fn lemma_step_covers(w: World, n: World, busy: Set<int>, step: Step)
    requires
        w.inv(),
        all_covered(w, busy),
        steps(w, n, step),
    ensures
        all_covered(n, busy_after(busy, step)),
{
    let later = busy_after(busy, step);
    if !n.queue.shutdown {
        assert forall|i: int| 0 <= i < n.pops.len() && #[trigger] n.is_dormant(i) implies is_covered(
            n,
            later,
            i,
        ) by {
            lemma_finite(w, busy, i);
            match step {
                Step::Work { worker, action } => {
                    lemma_work_covers(w, n, busy, worker, action, i);
                },
                Step::PushShard { .. } | Step::PushLocal { .. } => {
                    lemma_push_covers(w, n, busy, step, i);
                },
                Step::Look { producer, seen } => {
                    lemma_look_covers(w, n, busy, producer, seen, i);
                },
                Step::Start { worker } => {
                    lemma_step_account(w, n, step);
                    assert(w.is_dormant(i));
                    assert(is_covered(w, busy, i));
                    assert(due(n, i) =~= due(w, i));
                    assert(ready(n, later) =~= ready(w, busy).insert(worker));
                },
                Step::FallAsleep { worker } => {
                    assert(w.is_dormant(i));
                    assert(is_covered(w, busy, i));
                    assert(due(n, i) =~= due(w, i));
                    assert(ready(n, later) =~= ready(w, busy));
                },
                Step::WakeUp { worker } => {
                    lemma_step_account(w, n, step);
                    assert(w.is_dormant(i));
                    assert(is_covered(w, busy, i));
                    assert(due(n, i) =~= due(w, i));
                    assert(ready(n, later) =~= ready(w, busy).insert(worker));
                },
                Step::Finish { producer } => {
                    assert(w.is_dormant(i));
                    assert(is_covered(w, busy, i));
                    assert(due(n, i) =~= due(w, i));
                    assert(ready(n, later) =~= ready(w, busy));
                },
                Step::Shutdown | Step::Release => {},
            }
        }
    }
}

/// Wherever a run leads, a worker inside a task is between two searches, and while a worker sleeps,
/// every waiting task is covered: there are as many workers on their way to the queue, together
/// with producers on their way to the sleeper, as there are tasks that wait.
pub proof fn waiting_tasks_are_covered(run: Run, shards: nat, workers: nat)
    requires
        run.begins_new(shards, workers),
    ensures
        all_covered(run.end(), busy(run)),
    decreases run.steps.len(),
{
    if run.steps.len() > 0 {
        lemma_shorter(run);
        waiting_tasks_are_covered(run.shorter(), shards, workers);
        initial_world_is_sound(shards, workers);
        run_keeps_the_invariant(run.shorter());
        lemma_step_covers(
            run.shorter().end(),
            run.end(),
            busy(run.shorter()),
            run.steps.last(),
        );
    }
}

/// No task waits beside a sleeper: while a task waits and worker `i` sleeps, some worker that is
/// neither asleep nor inside a task is on its way to the queue, or a producer is on its way to
/// worker `i`. Whether other workers are inside tasks, and for how long, makes no difference.
pub proof fn no_task_waits_beside_a_sleeper(run: Run, shards: nat, workers: nat, i: int)
    requires
        run.begins_new(shards, workers),
        !run.end().queue.shutdown,
        !run.end().queue.is_empty(),
        0 <= i < run.end().pops.len(),
        run.end().is_dormant(i),
    ensures
        (exists|j: int|
            0 <= j < run.end().pops.len() && !#[trigger] run.end().is_dormant(j) && !busy(
                run,
            ).contains(j)) || (exists|p: int| #[trigger]
            run.end().walks.contains_key(p) && is_due(run.end().walks[p], i)),
{
    let end = run.end();
    waiting_tasks_are_covered(run, shards, workers);
    initial_world_is_sound(shards, workers);
    run_keeps_the_invariant(run);
    empty_means_no_tasks(end.queue);
    lemma_finite(end, busy(run), i);
    assert(is_covered(end, busy(run), i));
    if ready(end, busy(run)).len() > 0 {
        let j = ready(end, busy(run)).choose();
        assert(ready(end, busy(run)).contains(j));
        assert(!end.is_dormant(j));
    } else {
        let p = due(end, i).choose();
        assert(due(end, i).contains(p));
        assert(end.walks.contains_key(p));
    }
}

/// A worker that waits inside a task strands nothing: when every walk is over and every worker is
/// asleep or inside a task, a queue that still holds a task has no worker asleep.
pub proof fn blocked_worker_strands_no_task(run: Run, shards: nat, workers: nat, i: int)
    requires
        run.begins_new(shards, workers),
        !run.end().queue.shutdown,
        !run.end().wake_up_owed(),
        0 <= i < run.end().pops.len(),
        run.end().is_dormant(i),
        forall|j: int|
            0 <= j < run.end().pops.len() ==> #[trigger] run.end().is_dormant(j) || busy(
                run,
            ).contains(j),
    ensures
        run.end().queue.is_empty(),
{
    if !run.end().queue.is_empty() {
        no_task_waits_beside_a_sleeper(run, shards, workers, i);
    }
}

} // verus!
