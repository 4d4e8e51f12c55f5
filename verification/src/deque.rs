//! The task storage: `crossbeam_deque`'s injectors and worker deques.
//!
//! The queue owns every injector and every deque and reaches them through exclusive references,
//! so what one of them holds is a sequence that only the functions below change. A `Stealer`
//! shares the buffer of its `Worker`; it is made for one call and dropped with it.

use vstd::prelude::*;

verus! {

/// An injector: the shared first-in, first-out queue of `crossbeam_deque`.
#[verifier::external_type_specification]
#[verifier::external_body]
#[verifier::reject_recursive_types(T)]
pub struct ExInjector<T>(crossbeam_deque::Injector<T>);

/// A worker's deque of `crossbeam_deque`.
#[verifier::external_type_specification]
#[verifier::external_body]
#[verifier::reject_recursive_types(T)]
pub struct ExWorker<T>(crossbeam_deque::Worker<T>);

/// The tasks that wait in an injector, oldest first.
pub uninterp spec fn injector_items(injector: crossbeam_deque::Injector<u64>) -> Seq<u64>;

/// The tasks that wait in a worker's deque, in the order in which they were pushed.
pub uninterp spec fn deque_items(deque: crossbeam_deque::Worker<u64>) -> Seq<u64>;

/// The deque was made to hand its tasks out first in, first out.
pub uninterp spec fn deque_is_fifo(deque: crossbeam_deque::Worker<u64>) -> bool;

/// What came of one attempt to steal.
#[derive(Clone, Copy, PartialEq, Eq, Structural, Debug)]
pub enum Steal {
    /// There was nothing to steal.
    Empty,
    /// The task with this number was stolen.
    Success(u64),
    /// The attempt was lost; it may be made again.
    Retry,
}

/// How a steal that also moves a batch changes its source and its destination.
///
/// An empty source gives `Empty` and only an empty one does. `Success` hands out the oldest task
/// and moves a run of the tasks right behind it, in order, to the back of the destination; how
/// long the run is, the source leaves open. `Retry` changes nothing.
pub open spec fn stolen_from(
    source: Seq<u64>,
    dest: Seq<u64>,
    source_after: Seq<u64>,
    dest_after: Seq<u64>,
    stolen: Steal,
) -> bool {
    match stolen {
        Steal::Empty => source.len() == 0 && source_after == source && dest_after == dest,
        Steal::Retry => source.len() > 0 && source_after == source && dest_after == dest,
        Steal::Success(task) => exists|batch: int|
            #![trigger source.skip(batch + 1)]
            0 <= batch < source.len() && task == source[0] && source_after == source.skip(batch + 1)
                && dest_after == dest + source.subrange(1, batch + 1),
    }
}

/// Calls `Injector::new`: a new injector holds no task.
#[verifier::external_body]
pub(crate) fn injector_new() -> (injector: crossbeam_deque::Injector<u64>)
    ensures
        injector_items(injector) == Seq::<u64>::empty(),
{
    crossbeam_deque::Injector::new()
}

/// Calls `Injector::push`: the task joins at the back.
#[verifier::external_body]
pub(crate) fn injector_push(injector: &mut crossbeam_deque::Injector<u64>, task: u64)
    ensures
        injector_items(*final(injector)) == injector_items(*old(injector)).push(task),
{
    injector.push(task)
}

/// Calls `Injector::is_empty`: tells whether a task waits.
#[verifier::external_body]
pub(crate) fn injector_is_empty(injector: &crossbeam_deque::Injector<u64>) -> (empty: bool)
    ensures
        empty == (injector_items(*injector).len() == 0),
{
    injector.is_empty()
}

/// Calls `Injector::steal_batch_and_pop`: takes the oldest task and moves a batch of those behind
/// it into `dest`.
#[verifier::external_body]
pub(crate) fn injector_steal_batch_and_pop(
    injector: &mut crossbeam_deque::Injector<u64>,
    dest: &mut crossbeam_deque::Worker<u64>,
) -> (stolen: Steal)
    requires
        deque_is_fifo(*old(dest)),
    ensures
        deque_is_fifo(*final(dest)),
        stolen_from(
            injector_items(*old(injector)),
            deque_items(*old(dest)),
            injector_items(*final(injector)),
            deque_items(*final(dest)),
            stolen,
        ),
{
    match injector.steal_batch_and_pop(dest) {
        crossbeam_deque::Steal::Empty => Steal::Empty,
        crossbeam_deque::Steal::Success(task) => Steal::Success(task),
        crossbeam_deque::Steal::Retry => Steal::Retry,
    }
}

/// Calls `Worker::new_fifo`: a new first-in, first-out deque holds no task.
#[verifier::external_body]
pub(crate) fn deque_new_fifo() -> (deque: crossbeam_deque::Worker<u64>)
    ensures
        deque_items(deque) == Seq::<u64>::empty(),
        deque_is_fifo(deque),
{
    crossbeam_deque::Worker::new_fifo()
}

/// Calls `Worker::push`: the task joins at the back.
#[verifier::external_body]
pub(crate) fn deque_push(deque: &mut crossbeam_deque::Worker<u64>, task: u64)
    ensures
        deque_items(*final(deque)) == deque_items(*old(deque)).push(task),
        deque_is_fifo(*final(deque)) == deque_is_fifo(*old(deque)),
{
    deque.push(task)
}

/// Calls `Worker::pop` on a first-in, first-out deque: takes the oldest task, if there is one.
#[verifier::external_body]
pub(crate) fn deque_pop(deque: &mut crossbeam_deque::Worker<u64>) -> (task: Option<u64>)
    requires
        deque_is_fifo(*old(deque)),
    ensures
        deque_is_fifo(*final(deque)),
        deque_items(*old(deque)).len() == 0 ==> task is None && deque_items(*final(deque))
            == deque_items(*old(deque)),
        deque_items(*old(deque)).len() > 0 ==> task == Some(deque_items(*old(deque))[0])
            && deque_items(*final(deque)) == deque_items(*old(deque)).skip(1),
{
    deque.pop()
}

/// Calls `Stealer::is_empty` on a deque's stealer: tells whether a task waits in the deque.
#[verifier::external_body]
pub(crate) fn stealer_is_empty(victim: &crossbeam_deque::Worker<u64>) -> (empty: bool)
    ensures
        empty == (deque_items(*victim).len() == 0),
{
    victim.stealer().is_empty()
}

/// Calls `Stealer::steal_batch_and_pop` on a deque's stealer: takes the oldest task and moves a
/// batch of those behind it into `dest`. The attempt is never lost: it is lost only to another
/// thread that takes from the deque or grows it meanwhile, and there is none.
#[verifier::external_body]
pub(crate) fn stealer_steal_batch_and_pop(
    victim: &mut crossbeam_deque::Worker<u64>,
    dest: &mut crossbeam_deque::Worker<u64>,
) -> (stolen: Steal)
    requires
        deque_is_fifo(*old(victim)),
        deque_is_fifo(*old(dest)),
    ensures
        deque_is_fifo(*final(victim)),
        deque_is_fifo(*final(dest)),
        stolen !is Retry,
        stolen_from(
            deque_items(*old(victim)),
            deque_items(*old(dest)),
            deque_items(*final(victim)),
            deque_items(*final(dest)),
            stolen,
        ),
{
    match victim.stealer().steal_batch_and_pop(dest) {
        crossbeam_deque::Steal::Empty => Steal::Empty,
        crossbeam_deque::Steal::Success(task) => Steal::Success(task),
        crossbeam_deque::Steal::Retry => Steal::Retry,
    }
}

} // verus!
