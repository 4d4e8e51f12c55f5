//! Where a push puts its task, and whom it wakes.

use crate::producer::{Producer, WorkerHandle};
use crate::queue::Queue;
use vstd::prelude::*;

verus! {

/// A thread that is a worker of the queue pushes to the back of its own deque. All else in the
/// queue and in the thread's state stays. If anybody may be parked, the search for a sleeper begins
/// at the worker's neighbour.
pub proof fn worker_pushes_into_its_own_deque<H: FnOnce() -> usize>(
    queue: &mut Queue,
    task: u64,
    producer: &mut Producer,
    this: usize,
    hash: H,
    wake: Option<usize>,
    idx: usize,
)
    requires
        call_ensures(Queue::push::<H>, (queue, task, producer, this, hash), wake),
        producer.worker == Some(WorkerHandle { queue: this, idx }),
        idx < queue@.workers.len(),
        idx < usize::MAX,
        queue@.workers[idx as int] is Some,
    ensures
        final(queue)@.workers[idx as int] is Some,
        final(queue)@.workers[idx as int]->0.deque == old(
            queue,
        )@.workers[idx as int]->0.deque.push(task),
        final(queue)@.workers[idx as int]->0.rng == old(queue)@.workers[idx as int]->0.rng,
        final(queue)@.workers.len() == old(queue)@.workers.len(),
        forall|v: int|
            0 <= v < old(queue)@.workers.len() && v != idx ==> #[trigger] final(queue)@.workers[v]
                == old(queue)@.workers[v],
        final(queue)@.shards == old(queue)@.shards,
        final(queue)@.parked == old(queue)@.parked,
        final(queue)@.shutdown == old(queue)@.shutdown,
        *final(producer) == *old(producer),
        old(queue)@.parked > 0 ==> wake == Some((idx + 1) as usize),
        old(queue)@.parked == 0 ==> wake is None,
{
}

/// A thread that works for no queue, or for another, pushes to the back of one shard. All else in
/// the queue stays. If anybody may be parked, the search for a sleeper begins at the worker of
/// that shard's number.
pub proof fn other_thread_pushes_into_one_shard<H: FnOnce() -> usize>(
    queue: &mut Queue,
    task: u64,
    producer: &mut Producer,
    this: usize,
    hash: H,
    wake: Option<usize>,
)
    requires
        call_ensures(Queue::push::<H>, (queue, task, producer, this, hash), wake),
        producer.worker matches Some(handle) ==> handle.queue != this,
        0 < queue@.shards.len() <= usize::MAX,
    ensures
        exists|j: int|
            {
                &&& 0 <= j < old(queue)@.shards.len()
                &&& #[trigger] final(queue)@.shards[j] == old(queue)@.shards[j].push(task)
                &&& forall|i: int|
                    0 <= i < old(queue)@.shards.len()
                        && i != j ==> #[trigger] final(queue)@.shards[i] == old(queue)@.shards[i]
                &&& old(queue)@.parked > 0 ==> wake == Some(j as usize)
                &&& old(queue)@.parked == 0 ==> wake is None
            },
        final(queue)@.shards.len() == old(queue)@.shards.len(),
        final(queue)@.workers == old(queue)@.workers,
        final(queue)@.parked == old(queue)@.parked,
        final(queue)@.shutdown == old(queue)@.shutdown,
        final(producer).worker == old(producer).worker,
{
    let n = queue@.shards.len() as int;
    if n > 1 {
        let hint = final(producer).shard_hint->0;
        let target = crate::producer::spill_target(
            final(producer).spill,
            hint as int % n,
            n,
        );
        assert(final(queue)@.shards[target] == queue@.shards[target].push(task));
    } else {
        assert(final(queue)@.shards[0] == queue@.shards[0].push(task));
    }
}

/// The shard of a push: the first eight of a run of pushes with one preference go to the preferred
/// shard, which is the hint's remainder, and each later one goes a shard further. The hint is
/// computed once, and kept.
pub proof fn run_of_pushes_spills_after_eight<H: FnOnce() -> usize>(
    queue: &mut Queue,
    task: u64,
    producer: &mut Producer,
    this: usize,
    hash: H,
    wake: Option<usize>,
)
    requires
        call_ensures(Queue::push::<H>, (queue, task, producer, this, hash), wake),
        producer.worker matches Some(handle) ==> handle.queue != this,
        1 < queue@.shards.len() <= usize::MAX,
    ensures
        final(producer).shard_hint is Some,
        old(producer).shard_hint is Some ==> final(producer).shard_hint == old(
            producer,
        ).shard_hint,
        old(producer).shard_hint is None ==> call_ensures(
            hash,
            (),
            final(producer).shard_hint->0,
        ),
        ({
            let n = old(queue)@.shards.len() as int;
            let preferred = final(producer).shard_hint->0 as int % n;
            let run = old(producer).spill;
            let now = final(producer).spill;
            &&& now.last == preferred
            &&& run.last != preferred ==> now.count == 1
            &&& run.last == preferred && run.count < u32::MAX ==> now.count == run.count + 1
            &&& run.last == preferred && run.count == u32::MAX ==> now.count == u32::MAX
            &&& now.count <= 8 ==> final(queue)@.shards[preferred] == old(
                queue,
            )@.shards[preferred].push(task)
            &&& now.count > 8 ==> final(queue)@.shards[(preferred + (now.count - 8)) % n] == old(
                queue,
            )@.shards[(preferred + (now.count - 8)) % n].push(task)
        }),
{
}

/// Where there is one shard, a push takes it and leaves the thread's state alone.
pub proof fn lone_shard_takes_every_push<H: FnOnce() -> usize>(
    queue: &mut Queue,
    task: u64,
    producer: &mut Producer,
    this: usize,
    hash: H,
    wake: Option<usize>,
)
    requires
        call_ensures(Queue::push::<H>, (queue, task, producer, this, hash), wake),
        producer.worker matches Some(handle) ==> handle.queue != this,
        queue@.shards.len() == 1,
    ensures
        final(queue)@.shards == seq![old(queue)@.shards[0].push(task)],
        *final(producer) == *old(producer),
        old(queue)@.parked > 0 ==> wake == Some(0usize),
        old(queue)@.parked == 0 ==> wake is None,
{
}

/// A thread that has done nothing has no hint, is in no run and works for no queue.
pub proof fn new_thread_has_no_state(producer: Producer)
    requires
        call_ensures(Producer::new, (), producer),
    ensures
        producer.shard_hint is None,
        producer.spill.count == 0,
        producer.spill.last == usize::MAX,
        producer.worker is None,
{
}

/// The hint is computed on first use, and is the same ever after.
pub proof fn hint_is_computed_once<H: FnOnce() -> usize, I: FnOnce() -> usize>(
    first: &mut Producer,
    hash: H,
    hint: usize,
    second: &mut Producer,
    other: I,
    again: usize,
)
    requires
        call_ensures(Producer::current_shard_hint::<H>, (first, hash), hint),
        call_ensures(Producer::current_shard_hint::<I>, (second, other), again),
        second.shard_hint == final(first).shard_hint,
    ensures
        again == hint,
        old(first).shard_hint is None ==> call_ensures(hash, (), hint),
        old(first).shard_hint is Some ==> old(first).shard_hint == Some(hint),
        final(first).shard_hint == Some(hint),
        final(first).spill == old(first).spill,
        final(first).worker == old(first).worker,
        *final(second) == *old(second),
{
}

/// Between entering a scope and leaving it a thread is the worker that it entered as, for that
/// queue and no other; after that it is none. The rest of its state stays.
pub proof fn thread_is_a_worker_inside_its_scope(
    entering: &mut Producer,
    queue: usize,
    idx: usize,
    asked: usize,
    inside: Option<usize>,
    leaving: &mut Producer,
    outside: Option<usize>,
)
    requires
        call_ensures(Producer::enter_worker_scope, (entering, queue, idx), ()),
        call_ensures(Producer::current_worker, (final(entering), asked), inside),
        call_ensures(Producer::leave_worker_scope, (leaving,), ()),
        call_ensures(Producer::current_worker, (final(leaving), asked), outside),
    ensures
        asked == queue ==> inside == Some(idx),
        asked != queue ==> inside is None,
        outside is None,
        final(entering).shard_hint == old(entering).shard_hint,
        final(entering).spill == old(entering).spill,
        final(leaving).shard_hint == old(leaving).shard_hint,
        final(leaving).spill == old(leaving).spill,
{
}

/// A push is counted in the run of pushes with its preference, which is the hint's remainder. The
/// first eight of a run go to the preferred shard, and each later one a shard further.
pub proof fn route_counts_and_spills(
    producer: &mut Producer,
    hint: usize,
    mask: usize,
    target: usize,
)
    requires
        call_ensures(Producer::route, (producer, hint, mask), target),
        mask < usize::MAX,
    ensures
        ({
            let n = mask + 1;
            let preferred = hint as int % n;
            let run = old(producer).spill;
            let now = final(producer).spill;
            &&& now.last == preferred
            &&& run.last != preferred ==> now.count == 1
            &&& run.last == preferred && run.count < u32::MAX ==> now.count == run.count + 1
            &&& run.last == preferred && run.count == u32::MAX ==> now.count == u32::MAX
            &&& now.count <= 8 ==> target == preferred
            &&& now.count > 8 ==> target == (preferred + (now.count - 8)) % n
        }),
        final(producer).shard_hint == old(producer).shard_hint,
        final(producer).worker == old(producer).worker,
{
}

/// Two pushes in a row by one thread, with one hint: within the first eight both go to one shard,
/// and beyond them the second goes to the neighbour of the first one's.
pub proof fn neighbours_follow_each_other(
    first: &mut Producer,
    second: &mut Producer,
    hint: usize,
    mask: usize,
    here: usize,
    there: usize,
)
    requires
        call_ensures(Producer::route, (first, hint, mask), here),
        call_ensures(Producer::route, (second, hint, mask), there),
        *second == *final(first),
        mask < usize::MAX,
        final(first).spill.count < u32::MAX,
    ensures
        final(first).spill.count < 8 ==> there == here,
        final(first).spill.count >= 8 ==> there == (here + 1) % (mask + 1),
{
    let n = mask + 1;
    let preferred = hint as int % n;
    let c = final(first).spill.count;
    if c >= 8 {
        vstd::arithmetic::div_mod::lemma_add_mod_noop(preferred + (c - 8), 1, n);
        vstd::arithmetic::div_mod::lemma_add_mod_noop(here as int, 1, n);
        vstd::arithmetic::div_mod::lemma_mod_twice(preferred + (c - 8), n);
        if c == 8 {
            vstd::arithmetic::div_mod::lemma_small_mod(preferred as nat, n as nat);
        }
    }
}

} // verus!
