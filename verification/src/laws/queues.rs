//! What a queue is when it is made, and what registering, parking and the end do to it.

use crate::bits::ceil_pow2_is_least;
use crate::laws::parking::{one_less, one_more};
use crate::queue::{default_shard_counts, shard_count, Queue};
use vstd::arithmetic::power2::pow2;
use vstd::prelude::*;

verus! {

/// `shards` is the right number of shards for `workers` workers. Where a number is asked for, it is
/// confined to between one and the number of workers, and the shards are the power of two from
/// there up to less than twice as many. Else there are one, two, four or eight.
pub open spec fn right_number_of_shards(
    workers: int,
    asked: Option<usize>,
    shards: int,
) -> bool {
    &&& exists|e: nat| shards == #[trigger] pow2(e)
    &&& match asked {
        Some(wanted) => {
            let most = if workers < 1 {
                1
            } else {
                workers
            };
            &&& wanted < 1 ==> shards == 1
            &&& 1 <= wanted <= most ==> wanted <= shards < 2 * wanted
            &&& most < wanted ==> most <= shards < 2 * most
        },
        None => {
            &&& workers <= 1 ==> shards == 1
            &&& workers == 2 ==> shards == 2
            &&& 3 <= workers <= 4 ==> shards == 4
            &&& 5 <= workers ==> shards == 8
        },
    }
}

/// The number of shards is right for any number of workers and whatever is asked for.
pub proof fn shards_are_counted_right(workers: usize, asked: Option<usize>, shards: usize)
    requires
        call_ensures(shard_count, (workers, asked), shards),
    ensures
        right_number_of_shards(workers as int, asked, shards as int),
{
    match asked {
        Some(wanted) => {
            ceil_pow2_is_least(wanted as nat);
            ceil_pow2_is_least(workers as nat);
            ceil_pow2_is_least(1);
        },
        None => {
            if workers >= 1 {
                default_shard_counts(workers as nat);
            }
        },
    }
}

/// A new queue has a place for each worker, none of which has registered, and the right number of
/// shards. Nothing waits in it, nobody is parked, and it was not told to shut down.
pub proof fn new_queue_is_empty(workers: usize, asked: Option<usize>, queue: Queue)
    requires
        call_ensures(Queue::new, (workers, asked), queue),
        workers <= usize::MAX / 2 + 1,
    ensures
        queue@.workers.len() == workers,
        forall|v: int| 0 <= v < workers ==> (#[trigger] queue@.workers[v]) is None,
        right_number_of_shards(workers as int, asked, queue@.shards.len() as int),
        forall|j: int| 0 <= j < queue@.shards.len() ==> (#[trigger] queue@.shards[j]).len() == 0,
        queue@.parked == 0,
        !queue@.shutdown,
{
    match asked {
        Some(wanted) => {
            ceil_pow2_is_least(wanted as nat);
            ceil_pow2_is_least(workers as nat);
            ceil_pow2_is_least(1);
        },
        None => {
            if workers >= 1 {
                default_shard_counts(workers as nat);
            }
            ceil_pow2_is_least(workers as nat);
            vstd::arithmetic::power2::lemma2_to64();
            assert(8 == pow2(3));
        },
    }
}

/// The getters tell what the queue is.
pub proof fn getters_tell_the_queue(
    queue: Queue,
    workers: usize,
    shards: usize,
    parked: usize,
    shutdown: bool,
)
    requires
        call_ensures(Queue::num_workers, (&queue,), workers),
        call_ensures(Queue::num_shards, (&queue,), shards),
        call_ensures(Queue::parked, (&queue,), parked),
        call_ensures(Queue::is_shutdown, (&queue,), shutdown),
    ensures
        workers == queue@.workers.len(),
        shards == queue@.shards.len(),
        parked == queue@.parked,
        shutdown == queue@.shutdown,
{
}

/// A worker that registers gets an empty deque, and the caller gets what was left in its old one,
/// in order. Its generator starts from an odd number that depends on its index alone. All else in
/// the queue stays.
pub proof fn registered_worker_starts_afresh(queue: &mut Queue, idx: usize, abandoned: Vec<u64>)
    requires
        call_ensures(Queue::register_worker, (queue, idx), abandoned),
        idx < queue@.workers.len(),
    ensures
        final(queue)@.workers[idx as int] is Some,
        final(queue)@.workers[idx as int]->0.deque.len() == 0,
        final(queue)@.workers[idx as int]->0.rng == (idx as u32).wrapping_mul(0x9E37_79B9u32) | 1,
        old(queue)@.workers[idx as int] is Some ==> abandoned@ == old(
            queue,
        )@.workers[idx as int]->0.deque,
        old(queue)@.workers[idx as int] is None ==> abandoned@.len() == 0,
        final(queue)@.workers.len() == old(queue)@.workers.len(),
        forall|v: int|
            0 <= v < old(queue)@.workers.len() && v != idx ==> #[trigger] final(queue)@.workers[v]
                == old(queue)@.workers[v],
        final(queue)@.shards == old(queue)@.shards,
        final(queue)@.parked == old(queue)@.parked,
        final(queue)@.shutdown == old(queue)@.shutdown,
{
}

/// Arming counts one worker more, and nothing else changes.
pub proof fn arming_counts_one_more(queue: &mut Queue)
    requires
        call_ensures(Queue::arm, (queue,), ()),
    ensures
        final(queue)@.parked == one_more(old(queue)@.parked),
        final(queue)@.shards == old(queue)@.shards,
        final(queue)@.workers == old(queue)@.workers,
        final(queue)@.shutdown == old(queue)@.shutdown,
{
}

/// Disarming counts one worker less, and nothing else changes.
pub proof fn disarming_counts_one_less(queue: &mut Queue)
    requires
        call_ensures(Queue::disarm, (queue,), ()),
    ensures
        final(queue)@.parked == one_less(old(queue)@.parked),
        final(queue)@.shards == old(queue)@.shards,
        final(queue)@.workers == old(queue)@.workers,
        final(queue)@.shutdown == old(queue)@.shutdown,
{
}

/// A worker that arms and then disarms leaves the count as it was, whatever that was.
pub proof fn disarming_undoes_arming(armed: &mut Queue, disarmed: &mut Queue)
    requires
        call_ensures(Queue::arm, (armed,), ()),
        call_ensures(Queue::disarm, (disarmed,), ()),
        *disarmed == *final(armed),
    ensures
        final(disarmed)@ == old(armed)@,
{
    assert(final(disarmed)@ =~= armed@);
}

/// Once a queue is told to shut down it knows, and keeps its tasks and its count.
pub proof fn shutdown_is_noted(queue: &mut Queue)
    requires
        call_ensures(Queue::shutdown, (queue,), ()),
    ensures
        final(queue)@.shutdown,
        final(queue)@.shards == old(queue)@.shards,
        final(queue)@.workers == old(queue)@.workers,
        final(queue)@.parked == old(queue)@.parked,
{
}

} // verus!
