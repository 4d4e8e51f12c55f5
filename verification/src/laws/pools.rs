//! What a configuration makes of a pool, and what the pool's operations do to it.

use crate::builder::Builder;
use crate::cpus::{count_cpus, is_cpu_count};
use crate::error::Error;
use crate::laws::lanes::{has_lane, lemma_order_kept, line, took_from, waits_once, Lane};
use crate::laws::parking::{handed, led_on, lemma_led_on, lemma_step, one_less};
use crate::laws::queues::right_number_of_shards;
use crate::park::{PopAction, PopLoop, WorkerParker};
use crate::pool::{Dispatch, GlobalPool, Threadpool, WorkerSpec};
use crate::producer::{Producer, WorkerHandle};
use crate::queue::Queue;
use crate::sentry::{Respawn, Sentry};
use vstd::prelude::*;

verus! {

/// Every thread on the list carries the name and the stack size, and the one at place `i` is for
/// worker `i`.
pub open spec fn started_in_order(
    specs: Seq<WorkerSpec>,
    name: Option<String>,
    stack_size: Option<usize>,
) -> bool {
    forall|i: int|
        #![trigger specs[i]]
        0 <= i < specs.len() ==> specs[i].index == i && specs[i].name == name
            && specs[i].stack_size == stack_size
}

/// The pool is for `threads` threads, has as many, and is to start as many, with that name and
/// stack size. Its queue has a place for each, the right number of shards, and nothing in it.
pub open spec fn is_fresh(
    pool: Threadpool,
    threads: int,
    name: Option<String>,
    stack_size: Option<usize>,
    shards: Option<usize>,
) -> bool {
    &&& pool@.num_threads == threads
    &&& pool@.thread_count == threads
    &&& pool@.pending@.len() == threads
    &&& started_in_order(pool@.pending@, name, stack_size)
    &&& pool@.name == name
    &&& pool@.stack_size == stack_size
    &&& pool@.queue@.workers.len() == threads
    &&& forall|v: int| 0 <= v < threads ==> (#[trigger] pool@.queue@.workers[v]) is None
    &&& right_number_of_shards(threads, shards, pool@.queue@.shards.len() as int)
    &&& forall|j: int|
        0 <= j < pool@.queue@.shards.len() ==> (#[trigger] pool@.queue@.shards[j]).len() == 0
    &&& pool@.queue@.parked == 0
    &&& !pool@.queue@.shutdown
}

proof fn lemma_fresh(
    pool: Threadpool,
    threads: int,
    name: Option<String>,
    stack_size: Option<usize>,
    shards: Option<usize>,
)
    requires
        pool.is_new(name, stack_size, threads, shards),
        1 <= threads <= 512,
    ensures
        is_fresh(pool, threads, name, stack_size, shards),
{
    crate::bits::ceil_pow2_is_least(threads as nat);
    crate::bits::ceil_pow2_is_least(1);
    match shards {
        Some(wanted) => {
            crate::bits::ceil_pow2_is_least(wanted as nat);
        },
        None => {
            crate::queue::default_shard_counts(threads as nat);
            vstd::arithmetic::power2::lemma2_to64();
            assert(8 == vstd::arithmetic::power2::pow2(3));
        },
    }
    assert forall|i: int|
        #![trigger pool@.pending@[i]]
        0 <= i < pool@.pending@.len() implies pool@.pending@[i].index == i
        && pool@.pending@[i].name == name && pool@.pending@[i].stack_size == stack_size by {
        assert(pool@.pending@[i] == pool@.spec_for(i));
    }
}

/// A number of threads that is set is the number that the pool gets, whatever else is set and
/// however many CPUs there are, from one to 512. None becomes one, and more become 512.
pub proof fn set_number_of_threads_is_kept(
    builder: Builder,
    cpus: usize,
    pool: Threadpool,
    threads: usize,
)
    requires
        call_ensures(Builder::build_for, (builder, cpus), pool),
        builder.num_threads == Some(threads),
    ensures
        1 <= threads <= 512 ==> pool@.num_threads == threads && pool@.thread_count == threads
            && pool@.pending@.len() == threads,
        threads == 0 ==> pool@.num_threads == 1 && pool@.thread_count == 1 && pool@.pending@.len()
            == 1,
        threads > 512 ==> pool@.num_threads == 512 && pool@.thread_count == 512
            && pool@.pending@.len() == 512,
{
}

/// The same on this machine.
pub proof fn set_number_of_threads_is_kept_here(
    builder: Builder,
    pool: Threadpool,
    threads: usize,
)
    requires
        call_ensures(Builder::build, (builder,), pool),
        builder.num_threads == Some(threads),
    ensures
        1 <= threads <= 512 ==> pool@.num_threads == threads && pool@.thread_count == threads
            && pool@.pending@.len() == threads,
        threads == 0 ==> pool@.num_threads == 1 && pool@.thread_count == 1 && pool@.pending@.len()
            == 1,
        threads > 512 ==> pool@.num_threads == 512 && pool@.thread_count == 512
            && pool@.pending@.len() == 512,
{
}

/// Without a number set, a pool has two threads, or one for each CPU where that is asked for, from
/// one to 512.
pub proof fn unset_number_of_threads_is_two_or_the_cpus(
    builder: Builder,
    cpus: usize,
    pool: Threadpool,
)
    requires
        call_ensures(Builder::build_for, (builder, cpus), pool),
        builder.num_threads is None,
    ensures
        !builder.thread_per_core ==> pool@.num_threads == 2 && pool@.thread_count == 2
            && pool@.pending@.len() == 2,
        builder.thread_per_core && 1 <= cpus <= 512 ==> pool@.num_threads == cpus
            && pool@.thread_count == cpus && pool@.pending@.len() == cpus,
        builder.thread_per_core && cpus == 0 ==> pool@.num_threads == 1 && pool@.thread_count == 1
            && pool@.pending@.len() == 1,
        builder.thread_per_core && cpus > 512 ==> pool@.num_threads == 512 && pool@.thread_count
            == 512 && pool@.pending@.len() == 512,
{
}

/// The same on this machine, with the number of CPUs that was counted.
pub proof fn unset_number_of_threads_is_two_or_the_cpus_here(builder: Builder, pool: Threadpool)
    requires
        call_ensures(Builder::build, (builder,), pool),
        builder.num_threads is None,
    ensures
        !builder.thread_per_core ==> pool@.num_threads == 2 && pool@.thread_count == 2
            && pool@.pending@.len() == 2,
        builder.thread_per_core ==> exists|cpus: usize|
            {
                &&& #[trigger] is_cpu_count(cpus)
                &&& cpus >= 1
                &&& cpus <= 512 ==> pool@.num_threads == cpus && pool@.thread_count == cpus
                    && pool@.pending@.len() == cpus
                &&& cpus > 512 ==> pool@.num_threads == 512 && pool@.thread_count == 512
                    && pool@.pending@.len() == 512
            },
{
    let cpus = choose|cpus: usize|
        {
            &&& cpus >= 1
            &&& builder.num_threads is None && builder.thread_per_core ==> is_cpu_count(cpus)
            &&& pool.is_new(
                builder.thread_name,
                builder.thread_stack_size,
                #[trigger] builder.threads_for(cpus),
                builder.shards,
            )
        };
    if builder.thread_per_core {
        assert(is_cpu_count(cpus));
    }
}

/// Every configuration makes a pool, whatever the number of CPUs, and so does every number of
/// workers.
pub proof fn every_configuration_makes_a_pool(builder: Builder, cpus: usize, workers: usize)
    ensures
        call_requires(Builder::build_for, (builder, cpus)),
        call_requires(Builder::build, (builder,)),
        call_requires(Threadpool::new, (workers,)),
{
}

/// A new pool's threads carry the configured name and stack size, each for its own worker, and the
/// pool's queue is a new one for them.
pub proof fn new_pool_is_as_configured(builder: Builder, cpus: usize, pool: Threadpool)
    requires
        call_ensures(Builder::build_for, (builder, cpus), pool),
    ensures
        1 <= pool@.num_threads <= 512,
        is_fresh(
            pool,
            pool@.num_threads as int,
            builder.thread_name,
            builder.thread_stack_size,
            builder.shards,
        ),
{
    lemma_fresh(
        pool,
        pool@.num_threads as int,
        builder.thread_name,
        builder.thread_stack_size,
        builder.shards,
    );
}

/// The same on this machine.
pub proof fn new_pool_is_as_configured_here(builder: Builder, pool: Threadpool)
    requires
        call_ensures(Builder::build, (builder,), pool),
    ensures
        1 <= pool@.num_threads <= 512,
        is_fresh(
            pool,
            pool@.num_threads as int,
            builder.thread_name,
            builder.thread_stack_size,
            builder.shards,
        ),
{
    lemma_fresh(
        pool,
        pool@.num_threads as int,
        builder.thread_name,
        builder.thread_stack_size,
        builder.shards,
    );
}

/// A pool that is made for a number of workers has as many threads, from one to 512, without names
/// and with the usual stacks.
pub proof fn new_pool_has_its_workers(workers: usize, pool: Threadpool)
    requires
        call_ensures(Threadpool::new, (workers,), pool),
    ensures
        1 <= workers <= 512 ==> is_fresh(pool, workers as int, None, None, None),
        workers == 0 ==> is_fresh(pool, 1, None, None, None),
        workers > 512 ==> is_fresh(pool, 512, None, None, None),
{
    lemma_fresh(pool, pool@.num_threads as int, None, None, None);
}

/// A pool without any configuration has a thread for each CPU that was counted, up to 512.
pub proof fn default_pool_has_a_thread_for_each_cpu(pool: Threadpool)
    requires
        call_ensures(Threadpool::default, (), pool),
    ensures
        exists|cpus: usize|
            {
                &&& #[trigger] is_cpu_count(cpus)
                &&& 1 <= cpus <= 512 ==> is_fresh(pool, cpus as int, None, None, None)
                &&& cpus == 0 ==> is_fresh(pool, 1, None, None, None)
                &&& cpus > 512 ==> is_fresh(pool, 512, None, None, None)
            },
{
    let cpus = choose|cpus: usize| #[trigger]
        is_cpu_count(cpus) && pool.is_new(
            None,
            None,
            crate::bits::clamped(cpus as int, 1, crate::pool::MAX_THREADS as int),
            None,
        );
    lemma_fresh(pool, pool@.num_threads as int, None, None, None);
    assert(is_cpu_count(cpus));
}

/// There is at least one CPU.
pub proof fn there_is_a_cpu(cpus: usize)
    requires
        call_ensures(count_cpus, (), cpus),
    ensures
        cpus >= 1,
        is_cpu_count(cpus),
{
}

/// Nothing is set in a new configuration.
pub proof fn new_configuration_is_blank(fresh: Builder, usual: Builder)
    requires
        call_ensures(Builder::new, (), fresh),
        call_ensures(Builder::default, (), usual),
    ensures
        fresh.num_threads is None,
        fresh.thread_name is None,
        fresh.thread_stack_size is None,
        !fresh.thread_per_core,
        fresh.shards is None,
        usual == fresh,
{
}

/// Each setter sets what it is for, and leaves the rest; a clone is the same configuration.
pub proof fn setters_set_one_thing(
    builder: Builder,
    number: usize,
    numbered: Builder,
    stack: usize,
    stacked: Builder,
    enabled: bool,
    cored: Builder,
    count: usize,
    sharded: Builder,
    cloned: Builder,
)
    requires
        call_ensures(Builder::worker_threads, (builder, number), numbered),
        call_ensures(Builder::thread_stack_size, (builder, stack), stacked),
        call_ensures(Builder::thread_per_core, (builder, enabled), cored),
        call_ensures(Builder::shards, (builder, count), sharded),
        call_ensures(Builder::clone, (&builder,), cloned),
    ensures
        numbered.num_threads == Some(number),
        numbered.thread_name == builder.thread_name,
        numbered.thread_stack_size == builder.thread_stack_size,
        numbered.thread_per_core == builder.thread_per_core,
        numbered.shards == builder.shards,
        stacked.num_threads == builder.num_threads,
        stacked.thread_name == builder.thread_name,
        stacked.thread_stack_size == Some(stack),
        stacked.thread_per_core == builder.thread_per_core,
        stacked.shards == builder.shards,
        cored.num_threads == builder.num_threads,
        cored.thread_name == builder.thread_name,
        cored.thread_stack_size == builder.thread_stack_size,
        cored.thread_per_core == enabled,
        cored.shards == builder.shards,
        sharded.num_threads == builder.num_threads,
        sharded.thread_name == builder.thread_name,
        sharded.thread_stack_size == builder.thread_stack_size,
        sharded.thread_per_core == builder.thread_per_core,
        sharded.shards == Some(count),
        cloned == builder,
{
}

/// The name that is set is what the given name converts to, and the rest stays.
pub proof fn name_is_set_as_given<N: Into<String>>(builder: Builder, name: N, named: Builder)
    requires
        call_ensures(Builder::thread_name::<N>, (builder, name), named),
    ensures
        named.thread_name is Some,
        call_ensures(N::into, (name,), named.thread_name->0),
        named.num_threads == builder.num_threads,
        named.thread_stack_size == builder.thread_stack_size,
        named.thread_per_core == builder.thread_per_core,
        named.shards == builder.shards,
{
}

/// A thread that is put down in the place of one that died is for the same worker and carries the
/// pool's name and stack size. It comes after those already on the list, and the pool's numbers
/// and queue stay.
pub proof fn respawned_thread_is_as_configured(pool: &mut Threadpool, index: usize)
    requires
        call_ensures(Threadpool::respawn, (pool, index), ()),
    ensures
        final(pool)@.pending@.len() == old(pool)@.pending@.len() + 1,
        final(pool)@.pending@.last().index == index,
        final(pool)@.pending@.last().name == old(pool)@.name,
        final(pool)@.pending@.last().stack_size == old(pool)@.stack_size,
        forall|i: int|
            0 <= i < old(pool)@.pending@.len() ==> #[trigger] final(pool)@.pending@[i] == old(
                pool,
            )@.pending@[i],
        final(pool)@.name == old(pool)@.name,
        final(pool)@.stack_size == old(pool)@.stack_size,
        final(pool)@.num_threads == old(pool)@.num_threads,
        final(pool)@.thread_count == old(pool)@.thread_count,
        final(pool)@.queue == old(pool)@.queue,
{
}

/// In a pool that was built, and in which a worker was then replaced, every thread on the list
/// carries the configured name and stack size, whichever worker it is for.
pub proof fn replaced_thread_keeps_the_configuration(
    builder: Builder,
    cpus: usize,
    built: Threadpool,
    pool: &mut Threadpool,
    index: usize,
)
    requires
        call_ensures(Builder::build_for, (builder, cpus), built),
        *pool == built,
        call_ensures(Threadpool::respawn, (pool, index), ()),
    ensures
        forall|i: int|
            #![trigger final(pool)@.pending@[i]]
            0 <= i < final(pool)@.pending@.len() ==> final(pool)@.pending@[i].name
                == builder.thread_name && final(pool)@.pending@[i].stack_size
                == builder.thread_stack_size,
        forall|i: int|
            0 <= i < built@.num_threads ==> (#[trigger] final(pool)@.pending@[i]).index == i,
        final(pool)@.pending@[built@.num_threads as int].index == index,
{
    new_pool_is_as_configured(builder, cpus, built);
    assert forall|i: int|
        #![trigger final(pool)@.pending@[i]]
        0 <= i < final(pool)@.pending@.len() implies final(pool)@.pending@[i].name
        == builder.thread_name && final(pool)@.pending@[i].stack_size
        == builder.thread_stack_size by {
        if i < built@.pending@.len() {
            assert(final(pool)@.pending@[i] == built@.pending@[i]);
        }
    }
    assert forall|i: int| 0 <= i < built@.num_threads implies (
    #[trigger] final(pool)@.pending@[i]).index == i by {
        assert(final(pool)@.pending@[i] == built@.pending@[i]);
    }
}

/// The threads to be started are handed out once, in order.
pub proof fn threads_are_handed_out_once(
    pool: &mut Threadpool,
    specs: Vec<WorkerSpec>,
    later: &mut Threadpool,
    more: Vec<WorkerSpec>,
)
    requires
        call_ensures(Threadpool::take_pending, (pool,), specs),
        *later == *final(pool),
        call_ensures(Threadpool::take_pending, (later,), more),
    ensures
        specs@ == old(pool)@.pending@,
        more@.len() == 0,
        final(pool)@.name == old(pool)@.name,
        final(pool)@.stack_size == old(pool)@.stack_size,
        final(pool)@.num_threads == old(pool)@.num_threads,
        final(pool)@.thread_count == old(pool)@.thread_count,
        final(pool)@.queue == old(pool)@.queue,
{
}

/// A pool without threads has none and starts none, but is for as many as before.
pub proof fn given_up_threads_are_not_started(pool: &mut Threadpool)
    requires
        call_ensures(Threadpool::give_up_threads, (pool,), ()),
    ensures
        final(pool)@.thread_count == 0,
        final(pool)@.pending@.len() == 0,
        final(pool)@.num_threads == old(pool)@.num_threads,
        final(pool)@.name == old(pool)@.name,
        final(pool)@.stack_size == old(pool)@.stack_size,
        final(pool)@.queue == old(pool)@.queue,
{
}

/// The getters tell what the pool is.
pub proof fn getters_tell_the_pool(pool: Threadpool, count: usize, number: usize, queue: &Queue)
    requires
        call_ensures(Threadpool::thread_count, (&pool,), count),
        call_ensures(Threadpool::num_threads, (&pool,), number),
        call_ensures(Threadpool::queue, (&pool,), queue),
    ensures
        count == pool@.thread_count,
        number == pool@.num_threads,
        *queue == pool@.queue,
{
}

/// Closing tells the queue, and keeps its tasks and the threads; finishing leaves no thread, and
/// keeps the rest.
pub proof fn end_comes_in_two_parts(closing: &mut Threadpool, finishing: &mut Threadpool)
    requires
        call_ensures(Threadpool::close, (closing,), ()),
        call_ensures(Threadpool::finish, (finishing,), ()),
    ensures
        final(closing)@.queue@.shutdown,
        final(closing)@.queue@.shards == old(closing)@.queue@.shards,
        final(closing)@.queue@.workers == old(closing)@.queue@.workers,
        final(closing)@.queue@.parked == old(closing)@.queue@.parked,
        final(closing)@.thread_count == old(closing)@.thread_count,
        final(closing)@.num_threads == old(closing)@.num_threads,
        final(closing)@.pending == old(closing)@.pending,
        final(finishing)@.thread_count == 0,
        final(finishing)@.num_threads == old(finishing)@.num_threads,
        final(finishing)@.queue == old(finishing)@.queue,
        final(finishing)@.pending == old(finishing)@.pending,
{
}

/// A worker of the pool that spawns a task puts it at the back of its own deque; the pool is
/// otherwise as it was.
pub proof fn worker_spawns_into_its_own_deque<H: FnOnce() -> usize>(
    pool: &mut Threadpool,
    task: u64,
    producer: &mut Producer,
    this: usize,
    hash: H,
    wake: Option<usize>,
    idx: usize,
)
    requires
        call_ensures(Threadpool::spawn::<H>, (pool, task, producer, this, hash), wake),
        producer.worker == Some(WorkerHandle { queue: this, idx }),
        idx < pool@.queue@.workers.len(),
        idx < usize::MAX,
        pool@.queue@.workers[idx as int] is Some,
    ensures
        final(pool)@.queue@.workers[idx as int] is Some,
        final(pool)@.queue@.workers[idx as int]->0.deque == old(
            pool,
        )@.queue@.workers[idx as int]->0.deque.push(task),
        forall|v: int|
            0 <= v < old(pool)@.queue@.workers.len()
                && v != idx
                    ==> #[trigger] final(pool)@.queue@.workers[v] == old(pool)@.queue@.workers[v],
        final(pool)@.queue@.shards == old(pool)@.queue@.shards,
        final(pool)@.queue@.parked == old(pool)@.queue@.parked,
        final(pool)@.queue@.shutdown == old(pool)@.queue@.shutdown,
        *final(producer) == *old(producer),
        old(pool)@.queue@.parked > 0 ==> wake == Some((idx + 1) as usize),
        old(pool)@.queue@.parked == 0 ==> wake is None,
        final(pool)@.pending == old(pool)@.pending,
        final(pool)@.thread_count == old(pool)@.thread_count,
        final(pool)@.num_threads == old(pool)@.num_threads,
{
}

/// Any other thread that spawns a task puts it at the back of one shard: the hint's remainder for
/// the first eight of a run, and one further for each after. The pool is otherwise as it was.
pub proof fn other_thread_spawns_into_one_shard<H: FnOnce() -> usize>(
    pool: &mut Threadpool,
    task: u64,
    producer: &mut Producer,
    this: usize,
    hash: H,
    wake: Option<usize>,
)
    requires
        call_ensures(Threadpool::spawn::<H>, (pool, task, producer, this, hash), wake),
        producer.worker matches Some(handle) ==> handle.queue != this,
        0 < pool@.queue@.shards.len() <= usize::MAX,
    ensures
        ({
            let n = old(pool)@.queue@.shards.len() as int;
            let count = final(producer).spill.count;
            let preferred = final(producer).shard_hint->0 as int % n;
            let target = if n == 1 {
                0
            } else if count <= 8 {
                preferred
            } else {
                (preferred + (count - 8)) % n
            };
            &&& final(pool)@.queue@.shards[target] == old(pool)@.queue@.shards[target].push(task)
            &&& forall|j: int|
                0 <= j < n && j != target ==> #[trigger] final(pool)@.queue@.shards[j] == old(
                    pool,
                )@.queue@.shards[j]
            &&& final(pool)@.queue@.shards.len() == n
            &&& old(pool)@.queue@.parked > 0 ==> wake == Some(target as usize)
            &&& old(pool)@.queue@.parked == 0 ==> wake is None
            &&& n == 1 ==> *final(producer) == *old(producer)
            &&& n > 1 ==> {
                &&& final(producer).spill.last == preferred
                &&& old(producer).spill.last != preferred ==> count == 1
                &&& old(producer).spill.last == preferred && old(producer).spill.count < u32::MAX
                    ==> count == old(producer).spill.count + 1
                &&& old(producer).spill.last == preferred && old(producer).spill.count == u32::MAX
                    ==> count == u32::MAX
                &&& old(producer).shard_hint is Some ==> final(producer).shard_hint == old(
                    producer,
                ).shard_hint
                &&& old(producer).shard_hint is None ==> call_ensures(
                    hash,
                    (),
                    final(producer).shard_hint->0,
                )
            }
        }),
        final(pool)@.queue@.workers == old(pool)@.queue@.workers,
        final(pool)@.queue@.parked == old(pool)@.queue@.parked,
        final(pool)@.queue@.shutdown == old(pool)@.queue@.shutdown,
        final(pool)@.pending == old(pool)@.pending,
        final(pool)@.thread_count == old(pool)@.thread_count,
        final(pool)@.num_threads == old(pool)@.num_threads,
        final(producer).worker == old(producer).worker,
{
}

/// A worker that registers gets an empty deque, and the caller what was left in its old one, in
/// order; the pool is otherwise as it was.
pub proof fn registered_worker_of_a_pool_starts_afresh(
    pool: &mut Threadpool,
    idx: usize,
    abandoned: Vec<u64>,
)
    requires
        call_ensures(Threadpool::register_worker, (pool, idx), abandoned),
        idx < pool@.queue@.workers.len(),
    ensures
        final(pool)@.queue@.workers[idx as int] is Some,
        final(pool)@.queue@.workers[idx as int]->0.deque.len() == 0,
        final(pool)@.queue@.workers[idx as int]->0.rng == (idx as u32).wrapping_mul(0x9E37_79B9u32)
            | 1,
        old(pool)@.queue@.workers[idx as int] is Some ==> abandoned@ == old(
            pool,
        )@.queue@.workers[idx as int]->0.deque,
        old(pool)@.queue@.workers[idx as int] is None ==> abandoned@.len() == 0,
        forall|v: int|
            0 <= v < old(pool)@.queue@.workers.len()
                && v != idx
                    ==> #[trigger] final(pool)@.queue@.workers[v] == old(pool)@.queue@.workers[v],
        final(pool)@.queue@.shards == old(pool)@.queue@.shards,
        final(pool)@.queue@.parked == old(pool)@.queue@.parked,
        final(pool)@.queue@.shutdown == old(pool)@.queue@.shutdown,
        final(pool)@.pending == old(pool)@.pending,
        final(pool)@.thread_count == old(pool)@.thread_count,
{
}

/// A worker's step in a pool hands out a task from the front of a lane, or none, and keeps the
/// order of the others. A worker with tasks of its own that scans is handed the first of them. The
/// pool's threads stay.
pub proof fn pool_step_hands_out_in_order(
    pool: &mut Threadpool,
    pop: &mut PopLoop,
    action: PopAction,
)
    requires
        call_ensures(Threadpool::step, (pool, pop), action),
        has_lane(pool@.queue@, Lane::Deque(pop.idx)),
        0 < pool@.queue@.shards.len() <= usize::MAX,
        pool@.queue@.workers.len() <= usize::MAX,
    ensures
        handed(old(pool)@.queue@, final(pool)@.queue@, old(pop).idx, action),
        final(pool)@.queue@.shutdown == old(pool)@.queue@.shutdown,
        final(pop).idx == old(pop).idx,
        (old(pop).stage is Scanning || old(pop).stage is Spinning || old(pop).stage is Armed)
            && line(old(pool)@.queue@, Lane::Deque(old(pop).idx)).len() > 0 ==> action
            == PopAction::Run(line(old(pool)@.queue@, Lane::Deque(old(pop).idx))[0]) && line(
            final(pool)@.queue@,
            Lane::Deque(old(pop).idx),
        ) == line(old(pool)@.queue@, Lane::Deque(old(pop).idx)).skip(1),
        final(pool)@.pending == old(pool)@.pending,
        final(pool)@.thread_count == old(pool)@.thread_count,
        final(pool)@.num_threads == old(pool)@.num_threads,
{
    lemma_step(*pop, pool@.queue@, *final(pop), final(pool)@.queue@, action);
}

/// A worker's step in a pool leads on from its stage, whatever is in the queue.
pub proof fn pool_step_leads_on(pool: &mut Threadpool, pop: &mut PopLoop, action: PopAction)
    requires
        call_ensures(Threadpool::step, (pool, pop), action),
        has_lane(pool@.queue@, Lane::Deque(pop.idx)),
        0 < pool@.queue@.shards.len() <= usize::MAX,
        pool@.queue@.workers.len() <= usize::MAX,
    ensures
        led_on(*old(pop), old(pool)@.queue@, *final(pop), final(pool)@.queue@, action),
{
    lemma_led_on(*pop, pool@.queue@, *final(pop), final(pool)@.queue@, action);
}

/// Of two tasks in one lane, a step in a pool never hands out the later one, and where both still
/// wait in one lane, they wait in the same order.
pub proof fn pool_step_keeps_the_order(
    pool: &mut Threadpool,
    pop: &mut PopLoop,
    action: PopAction,
    lane: Lane,
    earlier: int,
    later: int,
)
    requires
        call_ensures(Threadpool::step, (pool, pop), action),
        has_lane(pool@.queue@, Lane::Deque(pop.idx)),
        0 < pool@.queue@.shards.len() <= usize::MAX,
        pool@.queue@.workers.len() <= usize::MAX,
        waits_once(pool@.queue@),
        has_lane(pool@.queue@, lane),
        0 <= earlier < later < line(pool@.queue@, lane).len(),
    ensures
        action != PopAction::Run(line(old(pool)@.queue@, lane)[later]),
        forall|m: Lane, p: int, q: int|
            #![trigger line(final(pool)@.queue@, m)[p], line(final(pool)@.queue@, m)[q]]
            has_lane(final(pool)@.queue@, m) && 0 <= p < line(final(pool)@.queue@, m).len() && 0
                <= q < line(final(pool)@.queue@, m).len() && line(final(pool)@.queue@, m)[p]
                == line(old(pool)@.queue@, lane)[earlier] && line(final(pool)@.queue@, m)[q]
                == line(old(pool)@.queue@, lane)[later] ==> p < q,
{
    let before = pool@.queue@;
    let after = final(pool)@.queue@;
    lemma_step(*pop, before, *final(pop), after, action);
    if let PopAction::Run(task) = action {
        let from = choose|from: Lane| #[trigger] took_from(before, after, pop.idx, from, task);
        lemma_order_kept(before, after, pop.idx, from, task, lane, earlier, later);
    }
}

/// A worker of a pool that wakes up is no longer counted and searches again; the pool is otherwise
/// as it was.
pub proof fn woken_worker_of_a_pool_searches_again(
    pool: &mut Threadpool,
    pop: &mut PopLoop,
    parker: &mut WorkerParker,
)
    requires
        call_ensures(Threadpool::wake_up, (pool, pop, parker), ()),
    ensures
        final(pop).stage is Scanning,
        final(pop).idx == old(pop).idx,
        !final(parker).blocked,
        final(pool)@.queue@.parked == one_less(old(pool)@.queue@.parked),
        final(pool)@.queue@.shards == old(pool)@.queue@.shards,
        final(pool)@.queue@.workers == old(pool)@.queue@.workers,
        final(pool)@.queue@.shutdown == old(pool)@.queue@.shutdown,
        final(pool)@.pending == old(pool)@.pending,
        final(pool)@.thread_count == old(pool)@.thread_count,
{
}

/// The first pool that is made the global one stays: it is accepted, a second one is refused with
/// the error, and what is got afterwards is the first.
pub proof fn first_global_pool_stays<T>(
    empty: GlobalPool<T>,
    nothing: Option<&T>,
    global: &mut GlobalPool<T>,
    first: T,
    accepted: Result<(), Error>,
    again: &mut GlobalPool<T>,
    second: T,
    refused: Result<(), Error>,
    found: Option<&T>,
)
    requires
        call_ensures(GlobalPool::<T>::new, (), empty),
        call_ensures(GlobalPool::<T>::get, (&empty,), nothing),
        *global == empty,
        call_ensures(GlobalPool::<T>::set, (global, first), accepted),
        *again == *final(global),
        call_ensures(GlobalPool::<T>::set, (again, second), refused),
        call_ensures(GlobalPool::<T>::get, (final(again),), found),
    ensures
        nothing is None,
        accepted is Ok,
        refused == Err::<(), Error>(Error::GlobalThreadpoolExists),
        found == Some(&first),
{
}

/// The same for a pool that is made global by itself.
pub proof fn first_pool_built_globally_stays(
    global: &mut GlobalPool<Threadpool>,
    first: Threadpool,
    accepted: Result<(), Error>,
    again: &mut GlobalPool<Threadpool>,
    second: Threadpool,
    refused: Result<(), Error>,
)
    requires
        global.pool is None,
        call_ensures(Threadpool::build_global, (first, global), accepted),
        *again == *final(global),
        call_ensures(Threadpool::build_global, (second, again), refused),
    ensures
        accepted is Ok,
        final(global).pool == Some(first),
        refused == Err::<(), Error>(Error::GlobalThreadpoolExists),
        final(again).pool == Some(first),
{
}

/// A job for the global pool goes to it with that job if there is one, and is run at once by the
/// caller if there is none.
pub proof fn job_goes_to_the_global_pool<T, F>(
    global: GlobalPool<T>,
    func: F,
    dispatch: Dispatch<'_, T, F>,
)
    requires
        call_ensures(GlobalPool::<T>::dispatch::<F>, (&global, func), dispatch),
    ensures
        global.pool matches Some(pool) ==> dispatch == Dispatch::<T, F>::Pool(&pool, func),
        global.pool is None ==> dispatch == Dispatch::<T, F>::Inline(func),
{
}

/// A worker that dies on duty is replaced at its place and on its core, as long as the pool lives.
/// One whose sentry was cancelled is not, and none is once the pool is gone.
pub proof fn dead_worker_is_replaced(
    coreid: Option<usize>,
    index: usize,
    sentry: Sentry,
    lives: bool,
    died: Option<Respawn>,
    cancelled: Sentry,
    ended: Option<Respawn>,
)
    requires
        call_ensures(Sentry::new, (coreid, index), sentry),
        call_ensures(Sentry::on_drop, (&sentry, lives), died),
        call_ensures(Sentry::cancel, (sentry,), cancelled),
        call_ensures(Sentry::on_drop, (&cancelled, lives), ended),
    ensures
        lives ==> died == Some(Respawn { coreid, index }),
        !lives ==> died is None,
        ended is None,
        cancelled.coreid == coreid,
        cancelled.index == index,
{
}

/// The error is told in these words.
pub proof fn error_is_told(error: Error, text: String)
    requires
        call_ensures(Error::message, (&error,), text),
    ensures
        text@ == "A global threadpool has already been initialised"@,
{
}

} // verus!
