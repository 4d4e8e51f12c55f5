//! The sharded queue that carries tasks from producers to workers.
//!
//! Producers push into a power-of-two number of injectors, the shards. Each worker owns a deque.
//! It takes its next task from its own deque, then from its preferred shard, then from the other
//! shards, then from the other workers' deques. A steal moves a batch into the thief's deque, so
//! that what follows is found there.
//!
//! The queue is plain state behind exclusive references: whoever shares it between threads holds
//! it under a lock. Tasks are numbers by which the caller finds the work again.

use crate::bits::{
    ceil_pow2, ceil_pow2_is_least, ceil_pow2_is_monotonic, clamp, clamped, is_power_of_two,
    next_power_of_two, power_of_two_is_half_at_most, seed, seed_of,
};
use crate::deque::{
    deque_is_fifo, deque_items, deque_new_fifo, deque_pop, deque_push, injector_is_empty,
    injector_items, injector_new, injector_push, injector_steal_batch_and_pop, stealer_is_empty,
    stealer_steal_batch_and_pop, stolen_from, Steal,
};
use crate::producer::{spill_after, spill_target, Producer};
use crate::rotation::{rotated_reaches_all, visit_of};
use crate::walk::{
    rng_at_stop, rng_for_peers, rng_for_shards, source_at, source_at_is_in_range, Place, ScanWalk,
    Source,
};
use vstd::prelude::*;

verus! {

/// Most shards that a queue has unless it is told otherwise.
pub const MAX_SHARDS: usize = 8;

/// What a worker owns: its deque and the generator that varies its scans.
pub struct WorkerContext {
    deque: crossbeam_deque::Worker<u64>,
    rng: u32,
}

/// The shared work queue.
pub struct Queue {
    injectors: Vec<crossbeam_deque::Injector<u64>>,
    workers: Vec<Option<WorkerContext>>,
    mask: usize,
    parked: usize,
    shutdown: bool,
}

/// What a worker's context holds.
#[verifier::ext_equal]
pub struct WorkerView {
    /// The tasks in the worker's deque, oldest first.
    pub deque: Seq<u64>,
    /// The state of the worker's generator.
    pub rng: u32,
}

/// What a queue holds.
#[verifier::ext_equal]
pub struct QueueView {
    /// The tasks in each shard, oldest first.
    pub shards: Seq<Seq<u64>>,
    /// What each worker owns; nothing before it has registered.
    pub workers: Seq<Option<WorkerView>>,
    /// How many workers are parked or about to park.
    pub parked: usize,
    /// The queue was told to shut down.
    pub shutdown: bool,
}

/// How hard a scan tries.
#[derive(Clone, Copy, PartialEq, Eq, Structural, Debug)]
pub enum Probe {
    /// Pass by a victim that looks empty.
    Cheap,
    /// Always attempt the steal.
    Strict,
}

/// What one scan came to.
#[derive(Clone, Copy, PartialEq, Eq, Structural, Debug)]
pub struct Scan {
    /// The task that was found.
    pub found: Option<u64>,
    /// A steal was lost on the way.
    pub contended: bool,
}

impl WorkerView {
    /// The context of worker `idx` when it starts.
    pub open spec fn fresh(idx: int) -> WorkerView {
        WorkerView { deque: Seq::empty(), rng: seed_of(idx as usize) }
    }
}

impl QueueView {
    /// The queue of `shards` shards and `workers` workers before anything happened.
    pub open spec fn initial(shards: nat, workers: nat) -> QueueView {
        QueueView {
            shards: Seq::new(shards, |j: int| Seq::empty()),
            workers: Seq::new(workers, |v: int| None),
            parked: 0,
            shutdown: false,
        }
    }

    /// Worker `idx` has registered.
    pub open spec fn registered(self, idx: int) -> bool {
        0 <= idx < self.workers.len() && self.workers[idx] is Some
    }

    /// The tasks in worker `idx`'s deque.
    pub open spec fn deque(self, idx: int) -> Seq<u64> {
        match self.workers[idx] {
            Some(worker) => worker.deque,
            None => Seq::empty(),
        }
    }

    /// No task waits anywhere.
    pub open spec fn is_empty(self) -> bool {
        &&& forall|j: int| 0 <= j < self.shards.len() ==> (#[trigger] self.shards[j]).len() == 0
        &&& forall|v: int| 0 <= v < self.workers.len() ==> (#[trigger] self.deque(v)).len() == 0
    }

    /// The queue after `task` joined shard `target`.
    pub open spec fn push_shard(self, target: int, task: u64) -> QueueView {
        QueueView {
            shards: self.shards.update(target, self.shards[target].push(task)),
            ..self
        }
    }

    /// The queue after worker `idx` holds `worker`.
    pub open spec fn with_worker(self, idx: int, worker: WorkerView) -> QueueView {
        QueueView { workers: self.workers.update(idx, Some(worker)), ..self }
    }

    /// The queue after `task` joined worker `idx`'s own deque.
    pub open spec fn push_local(self, idx: int, task: u64) -> QueueView {
        let worker = self.workers[idx]->0;
        self.with_worker(idx, WorkerView { deque: worker.deque.push(task), ..worker })
    }

    /// The queue after worker `idx` took the oldest task of its own deque.
    pub open spec fn pop_local(self, idx: int) -> QueueView {
        let worker = self.workers[idx]->0;
        self.with_worker(idx, WorkerView { deque: worker.deque.skip(1), ..worker })
    }

    /// How many places worker `idx` visits when its own deque is empty.
    pub open spec fn stops(self) -> int {
        self.shards.len() + self.workers.len() - 1
    }

    /// The place that worker `idx` visits as number `stop`: its preferred shard, then each other
    /// shard, then each other worker.
    pub open spec fn source(self, idx: int, stop: int) -> Source {
        source_at(
            idx,
            self.shards.len() as int,
            self.workers.len() as int,
            self.workers[idx]->0.rng,
            stop,
        )
    }

    /// Worker `idx`'s generator as it visits place number `stop`.
    pub open spec fn rng_at(self, idx: int, stop: int) -> u32 {
        rng_at_stop(
            self.shards.len() as int,
            self.workers.len() as int,
            self.workers[idx]->0.rng,
            stop,
        )
    }

    /// The tasks at a place.
    pub open spec fn items(self, source: Source) -> Seq<u64> {
        match source {
            Source::Shard(j) => self.shards[j],
            Source::Peer(v) => self.deque(v),
        }
    }

    /// The tasks at the place that worker `idx` visits as number `stop`.
    pub open spec fn stop_items(self, idx: int, stop: int) -> Seq<u64> {
        self.items(self.source(idx, stop))
    }

    /// The queue after worker `idx`, its deque empty, stole from `source`: the oldest task is
    /// handed out and the `batch` tasks behind it are in the thief's deque.
    pub open spec fn stolen(self, idx: int, source: Source, batch: int, rng: u32) -> QueueView {
        let items = self.items(source);
        let thief = WorkerView { deque: items.subrange(1, batch + 1), rng };
        match source {
            Source::Shard(j) => QueueView {
                shards: self.shards.update(j, items.skip(batch + 1)),
                ..self
            }.with_worker(idx, thief),
            Source::Peer(v) => self.with_worker(
                v,
                WorkerView { deque: items.skip(batch + 1), ..self.workers[v]->0 },
            ).with_worker(idx, thief),
        }
    }

    /// Some shard that worker `idx` visits before number `stop` holds a task.
    pub open spec fn passed_shard(self, idx: int, stop: int) -> bool {
        exists|earlier: int|
            0 <= earlier < stop && earlier < self.shards.len() && (#[trigger] self.stop_items(
                idx,
                earlier,
            )).len() > 0
    }

    /// Some other worker that worker `idx` visits before number `stop` holds a task.
    pub open spec fn passed_peer(self, idx: int, stop: int) -> bool {
        exists|earlier: int|
            self.shards.len() <= earlier < stop && (#[trigger] self.stop_items(idx, earlier)).len()
                > 0
    }

    /// A task waits in some shard.
    pub open spec fn shard_waits(self) -> bool {
        exists|j: int| 0 <= j < self.shards.len() && (#[trigger] self.shards[j]).len() > 0
    }

    /// A task waits in some worker's deque.
    pub open spec fn deque_waits(self) -> bool {
        exists|v: int| 0 <= v < self.workers.len() && (#[trigger] self.deque(v)).len() > 0
    }

    /// The counter of parked workers is `parked`, all else as it was.
    pub open spec fn with_parked(self, parked: usize) -> QueueView {
        QueueView { parked, ..self }
    }
}

/// How one scan by worker `idx` changes the queue and what it finds.
///
/// A task in the worker's own deque comes first. Otherwise the worker finds the oldest task of
/// the first place on its walk that holds one, unless that place is a shard and the steal was
/// lost: such a shard is passed by, and `contended` tells, exactly, whether one was. A steal from
/// another worker is never lost: a scan finds nothing only if no deque holds a task.
pub open spec fn scanned(before: QueueView, after: QueueView, idx: int, scan: Scan) -> bool {
    if before.deque(idx).len() > 0 {
        &&& scan.found == Some(before.deque(idx)[0])
        &&& !scan.contended
        &&& after == before.pop_local(idx)
    } else {
        match scan.found {
            None => {
                &&& forall|v: int|
                    0 <= v < before.workers.len() ==> (#[trigger] before.deque(v)).len() == 0
                &&& scan.contended == before.shard_waits()
                &&& after == before.with_worker(
                    idx,
                    WorkerView { deque: Seq::empty(), rng: before.rng_at(idx, before.stops()) },
                )
            },
            Some(task) => exists|stop: int, batch: int|
                #![trigger before.stolen(idx, before.source(idx, stop), batch, before.rng_at(idx, stop))]
                {
                    &&& 0 <= stop < before.stops()
                    &&& 0 <= batch < before.stop_items(idx, stop).len()
                    &&& task == before.stop_items(idx, stop)[0]
                    &&& scan.contended == before.passed_shard(idx, stop)
                    &&& !before.passed_peer(idx, stop)
                    &&& after == before.stolen(
                        idx,
                        before.source(idx, stop),
                        batch,
                        before.rng_at(idx, stop),
                    )
                },
        }
    }
}

impl View for WorkerContext {
    type V = WorkerView;

    closed spec fn view(&self) -> WorkerView {
        WorkerView { deque: deque_items(self.deque), rng: self.rng }
    }
}

spec fn context_view(slot: Option<WorkerContext>) -> Option<WorkerView> {
    match slot {
        Some(context) => Some(context@),
        None => None,
    }
}

impl View for Queue {
    type V = QueueView;

    closed spec fn view(&self) -> QueueView {
        QueueView {
            shards: Seq::new(self.injectors@.len(), |j: int| injector_items(self.injectors@[j])),
            workers: Seq::new(self.workers@.len(), |v: int| context_view(self.workers@[v])),
            parked: self.parked,
            shutdown: self.shutdown,
        }
    }
}

impl Queue {
    /// The shards are a power of two in number, and every deque is first in, first out.
    pub closed spec fn wf(&self) -> bool {
        &&& self.mask <= usize::MAX / 2
        &&& self.workers@.len() <= usize::MAX / 2 + 1
        &&& self.injectors@.len() == self.mask + 1
        &&& is_power_of_two(self.mask + 1)
        &&& forall|v: int|
            0 <= v < self.workers@.len() && (#[trigger] self.workers@[v]) is Some ==> deque_is_fifo(
                self.workers@[v]->0.deque,
            )
    }
}

/// A valid queue has a shard, its shards are a power of two in number, and its workers can be
/// walked over.
pub proof fn valid_queue_has_shards(queue: Queue)
    requires
        queue.wf(),
    ensures
        0 < queue@.shards.len(),
        is_power_of_two(queue@.shards.len() as int),
        queue@.workers.len() <= usize::MAX / 2 + 1,
{
}

/// How many shards serve `workers` workers. An override is confined to at most one shard per
/// worker and rounded up to a power of two.
pub open spec fn shard_count_of(workers: nat, shard_override: Option<usize>) -> nat {
    match shard_override {
        Some(shards) => ceil_pow2(
            clamped(shards as int, 1, if workers == 0 { 1 } else { workers as int }) as nat,
        ),
        None => if ceil_pow2(workers) <= MAX_SHARDS {
            ceil_pow2(workers)
        } else {
            MAX_SHARDS as nat
        },
    }
}

/// Computes how many shards serve `workers` workers.
pub fn shard_count(workers: usize, shard_override: Option<usize>) -> (shards: usize)
    requires
        workers <= usize::MAX / 2 + 1,
    ensures
        shards == shard_count_of(workers as nat, shard_override),
        1 <= shards,
        is_power_of_two(shards as int),
{
    proof {
        ceil_pow2_is_least(workers as nat);
    }
    match shard_override {
        Some(wanted) => {
            let most: usize = if workers == 0 {
                1
            } else {
                workers
            };
            let confined: usize = clamp(wanted, 1, most);
            proof {
                ceil_pow2_is_monotonic(confined as nat, most as nat);
                ceil_pow2_is_monotonic(1, confined as nat);
                ceil_pow2_is_least(confined as nat);
            }
            next_power_of_two(confined)
        },
        None => {
            let shards: usize = next_power_of_two(workers);
            proof {
                ceil_pow2_is_monotonic(0, workers as nat);
                assert(MAX_SHARDS == vstd::arithmetic::power2::pow2(3)) by {
                    vstd::arithmetic::power2::lemma2_to64();
                }
            }
            if shards <= MAX_SHARDS {
                shards
            } else {
                MAX_SHARDS
            }
        },
    }
}

/// To confine an override and then to round it up gives as many shards as to round it up and
/// then to confine it to the workers, rounded up.
pub proof fn override_rounds_and_confines_alike(workers: nat, shards: usize)
    requires
        1 <= workers,
    ensures
        shard_count_of(workers, Some(shards)) == if ceil_pow2(shards as nat) <= ceil_pow2(workers) {
            ceil_pow2(shards as nat)
        } else {
            ceil_pow2(workers)
        },
{
    if shards as int <= workers {
        ceil_pow2_is_monotonic(shards as nat, workers);
    } else {
        ceil_pow2_is_monotonic(workers, shards as nat);
    }
}

/// Without an override, one worker gets one shard, two get two, three or four get four, and more
/// get the most there are.
pub proof fn default_shard_counts(workers: nat)
    requires
        1 <= workers,
    ensures
        shard_count_of(workers, None) == if workers <= 2 {
            workers
        } else if workers <= 4 {
            4
        } else {
            8
        },
{
    reveal_with_fuel(ceil_pow2, 4);
    if workers >= 5 {
        ceil_pow2_is_monotonic(5, workers);
        assert(ceil_pow2(5) == 8);
    }
}

impl Queue {
    /// Builds a queue for `num_workers` workers. `shard_override` replaces the default number of
    /// shards.
    pub fn new(num_workers: usize, shard_override: Option<usize>) -> (queue: Queue)
        requires
            num_workers <= usize::MAX / 2 + 1,
        ensures
            queue.wf(),
            queue@ == QueueView::initial(
                shard_count_of(num_workers as nat, shard_override),
                num_workers as nat,
            ),
    {
        let num_shards: usize = shard_count(num_workers, shard_override);
        let mut injectors: Vec<crossbeam_deque::Injector<u64>> = Vec::new();
        let mut made: usize = 0;
        while made < num_shards
            invariant
                made <= num_shards,
                injectors@.len() == made,
                forall|j: int|
                    0 <= j < made ==> injector_items(#[trigger] injectors@[j]) == Seq::<
                        u64,
                    >::empty(),
            decreases num_shards - made,
        {
            injectors.push(injector_new());
            made = made + 1;
        }
        let mut workers: Vec<Option<WorkerContext>> = Vec::new();
        let mut slots: usize = 0;
        while slots < num_workers
            invariant
                slots <= num_workers,
                workers@.len() == slots,
                forall|v: int| 0 <= v < slots ==> (#[trigger] workers@[v]) is None,
            decreases num_workers - slots,
        {
            workers.push(None);
            slots = slots + 1;
        }
        proof {
            power_of_two_is_half_at_most(num_shards as int);
        }
        let queue = Queue { injectors, workers, mask: num_shards - 1, parked: 0, shutdown: false };
        proof {
            let initial = QueueView::initial(
                shard_count_of(num_workers as nat, shard_override),
                num_workers as nat,
            );
            assert(queue@.shards =~= initial.shards);
            assert(queue@.workers =~= initial.workers);
        }
        queue
    }

    /// How many workers the queue serves.
    pub fn num_workers(&self) -> (n: usize)
        ensures
            n == self@.workers.len(),
            self.wf() ==> n <= usize::MAX / 2 + 1,
    {
        self.workers.len()
    }

    /// How many shards the queue has.
    pub fn num_shards(&self) -> (n: usize)
        requires
            self.wf(),
        ensures
            n == self@.shards.len(),
            1 <= n,
            is_power_of_two(n as int),
    {
        self.mask + 1
    }

    /// How many workers are parked or about to park.
    pub fn parked(&self) -> (n: usize)
        ensures
            n == self@.parked,
    {
        self.parked
    }

    /// Whether the queue was told to shut down.
    pub fn is_shutdown(&self) -> (shutdown: bool)
        ensures
            shutdown == self@.shutdown,
    {
        self.shutdown
    }

    /// Gives worker `idx` a fresh deque and generator. A worker that starts in the place of
    /// another gets the tasks that were left in the other's deque: they will not be run and are
    /// the caller's to drop.
    pub fn register_worker(&mut self, idx: usize) -> (abandoned: Vec<u64>)
        requires
            old(self).wf(),
            idx < old(self)@.workers.len(),
        ensures
            final(self).wf(),
            final(self)@ == old(self)@.with_worker(idx as int, WorkerView::fresh(idx as int)),
            abandoned@ == old(self)@.deque(idx as int),
    {
        let mut abandoned: Vec<u64> = Vec::new();
        let left: Option<WorkerContext> = self.workers[idx].take();
        if let Some(context) = left {
            let mut deque = context.deque;
            let ghost all = deque_items(deque);
            let mut next: Option<u64> = deque_pop(&mut deque);
            while next.is_some()
                invariant
                    deque_is_fifo(deque),
                    match next {
                        Some(task) => abandoned@.push(task) + deque_items(deque) == all,
                        None => abandoned@ == all && deque_items(deque).len() == 0,
                    },
                decreases deque_items(deque).len() + (if next is Some { 1nat } else { 0nat }),
            {
                let task: u64 = next.unwrap();
                let ghost before = deque_items(deque);
                let ghost had = abandoned@;
                abandoned.push(task);
                next = deque_pop(&mut deque);
                proof {
                    if before.len() > 0 {
                        assert(had.push(task).push(before[0]) + before.skip(1) =~= had.push(task)
                            + before);
                    } else {
                        assert(had.push(task) + before =~= had.push(task));
                    }
                }
            }
        }
        self.workers[idx] = Some(WorkerContext { deque: deque_new_fifo(), rng: seed(idx) });
        proof {
            let expected = old(self)@.with_worker(idx as int, WorkerView::fresh(idx as int));
            assert(self@.shards =~= expected.shards);
            assert(self@.workers =~= expected.workers);
        }
        abandoned
    }

    /// Counts one more worker as parked or about to park.
    pub fn arm(&mut self)
        requires
            old(self).wf(),
        ensures
            final(self).wf(),
            final(self)@ == old(self)@.with_parked(old(self)@.parked.wrapping_add(1)),
    {
        self.parked = self.parked.wrapping_add(1);
        assert(self@ =~= old(self)@.with_parked(old(self)@.parked.wrapping_add(1)));
    }

    /// Counts one worker less as parked or about to park.
    pub fn disarm(&mut self)
        requires
            old(self).wf(),
        ensures
            final(self).wf(),
            final(self)@ == old(self)@.with_parked(old(self)@.parked.wrapping_sub(1)),
    {
        self.parked = self.parked.wrapping_sub(1);
        assert(self@ =~= old(self)@.with_parked(old(self)@.parked.wrapping_sub(1)));
    }

    /// Tells the workers to end once nothing is left for them.
    pub fn shutdown(&mut self)
        requires
            old(self).wf(),
        ensures
            final(self).wf(),
            final(self)@ == (QueueView { shutdown: true, ..old(self)@ }),
    {
        self.shutdown = true;
        assert(self@ =~= QueueView { shutdown: true, ..old(self)@ });
    }
}

/// The worker to begin with when a push has to wake one: `hint` if any may be parked.
pub open spec fn wake_hint(queue: QueueView, hint: usize) -> Option<usize> {
    if queue.parked > 0 {
        Some(hint)
    } else {
        None
    }
}

/// How a push by the thread of `producer` changes the queue at address `this` and the thread's
/// state, and where its wake-up begins.
///
/// A worker of this queue pushes into its own deque and wakes from its neighbour on. Any other
/// thread pushes into the shard that its hint and its run of pushes lead to.
pub open spec fn pushed(
    before: QueueView,
    after: QueueView,
    producer: Producer,
    producer_after: Producer,
    this: usize,
    task: u64,
    wake: Option<usize>,
) -> bool {
    let shards = before.shards.len() as int;
    match producer.worker_of(this) {
        Some(idx) => {
            &&& after == before.push_local(idx as int, task)
            &&& producer_after == producer
            &&& wake == wake_hint(before, idx.wrapping_add(1))
        },
        None => if shards == 1 {
            &&& after == before.push_shard(0, task)
            &&& producer_after == producer
            &&& wake == wake_hint(before, 0)
        } else {
            let hint = producer_after.shard_hint->0;
            let preferred = hint as int % shards;
            let target = spill_target(producer_after.spill, preferred, shards);
            &&& producer.shard_hint is Some ==> hint == producer.shard_hint->0
            &&& producer_after == Producer {
                shard_hint: Some(hint),
                spill: spill_after(producer.spill, preferred),
                worker: producer.worker,
            }
            &&& 0 <= target < shards
            &&& after == before.push_shard(target, task)
            &&& wake == wake_hint(before, target as usize)
        },
    }
}

impl Queue {
    /// Pushes a task for the thread of `producer`. `this` is the queue's address, by which a
    /// thread knows the queue that it works for; `hash` gives the thread's shard hint. Returns
    /// the worker with which the caller has to begin to wake one, if any may be parked.
    pub fn push<H: FnOnce() -> usize>(
        &mut self,
        task: u64,
        producer: &mut Producer,
        this: usize,
        hash: H,
    ) -> (wake: Option<usize>)
        requires
            old(self).wf(),
            call_requires(hash, ()),
            old(producer).worker_of(this) is Some ==> old(self)@.registered(
                old(producer).worker_of(this)->0 as int,
            ),
        ensures
            final(self).wf(),
            pushed(old(self)@, final(self)@, *old(producer), *final(producer), this, task, wake),
            old(producer).worker_of(this) is None && old(self)@.shards.len() > 1 && old(
                producer,
            ).shard_hint is None ==> call_ensures(hash, (), final(producer).shard_hint->0),
    {
        let hint: usize = match producer.current_worker(this) {
            Some(idx) => {
                let mut context = self.workers[idx].take().unwrap();
                deque_push(&mut context.deque, task);
                self.workers[idx] = Some(context);
                assert(self@ =~= old(self)@.push_local(idx as int, task)) by {
                    assert(self@.workers =~= old(self)@.push_local(idx as int, task).workers);
                }
                idx.wrapping_add(1)
            },
            None => {
                let target: usize = if self.mask == 0 {
                    0
                } else {
                    let hint: usize = producer.current_shard_hint(hash);
                    producer.route(hint, self.mask)
                };
                injector_push(&mut self.injectors[target], task);
                assert(self@ =~= old(self)@.push_shard(target as int, task)) by {
                    assert(self@.shards =~= old(self)@.push_shard(target as int, task).shards);
                }
                target
            },
        };
        if self.parked > 0 {
            Some(hint)
        } else {
            None
        }
    }

    /// One attempt to steal from shard `j` into `dest`. A cheap probe passes by an empty shard.
    fn steal_injector(
        &mut self,
        j: usize,
        dest: &mut crossbeam_deque::Worker<u64>,
        probe: Probe,
    ) -> (stolen: Steal)
        requires
            old(self).wf(),
            j < old(self)@.shards.len(),
            deque_is_fifo(*old(dest)),
        ensures
            final(self).wf(),
            deque_is_fifo(*final(dest)),
            stolen_from(
                old(self)@.shards[j as int],
                deque_items(*old(dest)),
                final(self)@.shards[j as int],
                deque_items(*final(dest)),
                stolen,
            ),
            final(self)@ == (QueueView {
                shards: old(self)@.shards.update(j as int, final(self)@.shards[j as int]),
                ..old(self)@
            }),
    {
        let stolen: Steal = if probe == Probe::Cheap && injector_is_empty(&self.injectors[j]) {
            Steal::Empty
        } else {
            injector_steal_batch_and_pop(&mut self.injectors[j], dest)
        };
        assert(self@.shards =~= old(self)@.shards.update(j as int, self@.shards[j as int]));
        stolen
    }

    /// One attempt to steal from worker `victim` into `dest`, which is never lost. A worker that
    /// has not registered has nothing; a cheap probe passes by an empty deque.
    fn steal_peer(
        &mut self,
        victim: usize,
        dest: &mut crossbeam_deque::Worker<u64>,
        probe: Probe,
    ) -> (stolen: Steal)
        requires
            old(self).wf(),
            victim < old(self)@.workers.len(),
            deque_is_fifo(*old(dest)),
        ensures
            final(self).wf(),
            deque_is_fifo(*final(dest)),
            stolen !is Retry,
            stolen_from(
                old(self)@.deque(victim as int),
                deque_items(*old(dest)),
                final(self)@.deque(victim as int),
                deque_items(*final(dest)),
                stolen,
            ),
            old(self)@.registered(victim as int) ==> final(self)@ == old(self)@.with_worker(
                victim as int,
                WorkerView {
                    deque: final(self)@.deque(victim as int),
                    ..old(self)@.workers[victim as int]->0
                },
            ),
            !old(self)@.registered(victim as int) ==> final(self)@ == old(self)@,
    {
        let slot: Option<WorkerContext> = self.workers[victim].take();
        let stolen: Steal = match slot {
            None => Steal::Empty,
            Some(context) => {
                let mut context = context;
                let stolen: Steal = if probe == Probe::Cheap && stealer_is_empty(&context.deque) {
                    Steal::Empty
                } else {
                    stealer_steal_batch_and_pop(&mut context.deque, dest)
                };
                self.workers[victim] = Some(context);
                stolen
            },
        };
        proof {
            if old(self)@.registered(victim as int) {
                let expected = old(self)@.with_worker(
                    victim as int,
                    WorkerView {
                        deque: self@.deque(victim as int),
                        ..old(self)@.workers[victim as int]->0
                    },
                );
                assert(self@.workers =~= expected.workers);
                assert(self@.shards =~= expected.shards);
            } else {
                assert(self@.workers =~= old(self)@.workers);
                assert(self@.shards =~= old(self)@.shards);
            }
        }
        stolen
    }
}

/// Every place on a worker's walk is a shard or another worker of the queue.
pub proof fn source_is_in_range(queue: QueueView, idx: int, stop: int)
    requires
        0 < queue.shards.len(),
        0 <= idx < queue.workers.len(),
        0 <= stop < queue.stops(),
    ensures
        match queue.source(idx, stop) {
            Source::Shard(j) => 0 <= j < queue.shards.len(),
            Source::Peer(v) => 0 <= v < queue.workers.len() && v != idx,
        },
{
    source_at_is_in_range(
        idx,
        queue.shards.len() as int,
        queue.workers.len() as int,
        queue.workers[idx]->0.rng,
        stop,
    );
}

/// A worker's walk misses nothing: with its own deque empty, it comes by a filled shard exactly if
/// there is one, and by a filled deque exactly if there is one.
pub proof fn walk_misses_nothing(queue: QueueView, idx: int)
    requires
        0 < queue.shards.len(),
        0 <= idx < queue.workers.len(),
        queue.deque(idx).len() == 0,
    ensures
        queue.passed_shard(idx, queue.stops()) == queue.shard_waits(),
        queue.passed_peer(idx, queue.stops()) == queue.deque_waits(),
{
    let shards = queue.shards.len() as int;
    let workers = queue.workers.len() as int;
    let rng = queue.workers[idx]->0.rng;
    let home = idx % shards;
    if queue.passed_shard(idx, queue.stops()) {
        let stop = choose|stop: int|
            0 <= stop < queue.stops() && stop < shards && (#[trigger] queue.stop_items(
                idx,
                stop,
            )).len() > 0;
        source_is_in_range(queue, idx, stop);
    }
    if queue.passed_peer(idx, queue.stops()) {
        let stop = choose|stop: int|
            shards <= stop < queue.stops() && (#[trigger] queue.stop_items(idx, stop)).len() > 0;
        source_is_in_range(queue, idx, stop);
    }
    if queue.shard_waits() {
        let j = choose|j: int| 0 <= j < shards && (#[trigger] queue.shards[j]).len() > 0;
        if j == home {
            assert(queue.stop_items(idx, 0).len() > 0);
        } else {
            let start: int = rng_for_shards(shards, rng) as int % (shards - 1);
            rotated_reaches_all(home, start, j, shards);
            let stop: int = visit_of(home, start, j, shards) + 1;
            assert(queue.stop_items(idx, stop).len() > 0);
        }
    }
    if queue.deque_waits() {
        let v = choose|v: int| 0 <= v < workers && (#[trigger] queue.deque(v)).len() > 0;
        let start: int = rng_for_peers(shards, workers, rng) as int % (workers - 1);
        rotated_reaches_all(idx, start, v, workers);
        let stop: int = visit_of(idx, start, v, workers) + shards;
        assert(queue.stop_items(idx, stop).len() > 0);
    }
}

/// While another worker's deque holds a task, a scan finds one: the work of a worker that does not
/// come back to its deque is within the reach of every other.
pub proof fn filled_deque_is_never_missed(
    before: QueueView,
    after: QueueView,
    idx: int,
    scan: Scan,
)
    requires
        before.registered(idx),
        scanned(before, after, idx, scan),
        before.deque_waits(),
    ensures
        scan.found is Some,
{
}

/// Where one task waits in another worker's deque, and nothing else waits anywhere, a scan finds
/// that task and leaves the queue empty.
pub proof fn lone_task_of_a_peer_is_stolen(
    before: QueueView,
    after: QueueView,
    idx: int,
    scan: Scan,
    victim: int,
    task: u64,
)
    requires
        0 < before.shards.len(),
        before.registered(idx),
        0 <= victim < before.workers.len(),
        victim != idx,
        before.deque(victim) == seq![task],
        !before.shard_waits(),
        forall|v: int|
            0 <= v < before.workers.len() && v != victim ==> (#[trigger] before.deque(v)).len()
                == 0,
        scanned(before, after, idx, scan),
    ensures
        scan == (Scan { found: Some(task), contended: false }),
        after.is_empty(),
{
    assert(before.deque(victim).len() > 0);
    assert(before.deque(idx).len() == 0);
    let (stop, batch) = choose|stop: int, batch: int|
        #![trigger before.stolen(idx, before.source(idx, stop), batch, before.rng_at(idx, stop))]
        {
            &&& 0 <= stop < before.stops()
            &&& 0 <= batch < before.stop_items(idx, stop).len()
            &&& scan.found == Some(before.stop_items(idx, stop)[0])
            &&& scan.contended == before.passed_shard(idx, stop)
            &&& !before.passed_peer(idx, stop)
            &&& after == before.stolen(
                idx,
                before.source(idx, stop),
                batch,
                before.rng_at(idx, stop),
            )
        };
    source_is_in_range(before, idx, stop);
    if before.passed_shard(idx, stop) {
        let earlier = choose|earlier: int|
            0 <= earlier < stop && earlier < before.shards.len() && (#[trigger] before.stop_items(
                idx,
                earlier,
            )).len() > 0;
        source_is_in_range(before, idx, earlier);
    }
    match before.source(idx, stop) {
        Source::Shard(j) => {
            assert(before.shards[j].len() > 0);
        },
        Source::Peer(v) => {
            assert(v == victim);
            assert(batch == 0);
            assert(after.shards == before.shards);
            assert forall|j: int| 0 <= j < after.shards.len() implies (
            #[trigger] after.shards[j]).len() == 0 by {
                assert(before.shards[j].len() == 0);
            }
            assert forall|u: int| 0 <= u < after.workers.len() implies (
            #[trigger] after.deque(u)).len() == 0 by {
                assert(before.deque(u).len() == 0 || u == victim);
            }
        },
    }
}

/// A walk that goes one place further has passed a task if it had, or if that place holds one.
proof fn lemma_passed_one_more(queue: QueueView, idx: int, stop: int)
    requires
        0 <= stop,
    ensures
        stop < queue.shards.len() ==> queue.passed_shard(idx, stop + 1) == (queue.passed_shard(
            idx,
            stop,
        ) || queue.stop_items(idx, stop).len() > 0),
        stop >= queue.shards.len() ==> queue.passed_shard(idx, stop + 1) == queue.passed_shard(
            idx,
            stop,
        ),
        stop >= queue.shards.len() ==> queue.passed_peer(idx, stop + 1) == (queue.passed_peer(
            idx,
            stop,
        ) || queue.stop_items(idx, stop).len() > 0),
        stop <= queue.shards.len() ==> !queue.passed_peer(idx, stop),
{
    let shards = queue.shards.len() as int;
    if queue.stop_items(idx, stop).len() > 0 {
        assert(stop < shards ==> queue.passed_shard(idx, stop + 1));
        assert(stop >= shards ==> queue.passed_peer(idx, stop + 1));
    }
    if queue.passed_shard(idx, stop + 1) && !queue.passed_shard(idx, stop) {
        let earlier = choose|earlier: int|
            0 <= earlier < stop + 1 && earlier < shards && (#[trigger] queue.stop_items(
                idx,
                earlier,
            )).len() > 0;
        assert(earlier == stop);
    }
    if queue.passed_peer(idx, stop + 1) && !queue.passed_peer(idx, stop) {
        let earlier = choose|earlier: int|
            shards <= earlier < stop + 1 && (#[trigger] queue.stop_items(idx, earlier)).len() > 0;
        assert(earlier == stop);
    }
}

/// A successful steal at place number `stop` is what a scan promises.
proof fn lemma_found(
    before: QueueView,
    after: QueueView,
    idx: int,
    stop: int,
    task: u64,
    contended: bool,
)
    requires
        0 < before.shards.len(),
        before.registered(idx),
        before.deque(idx).len() == 0,
        0 <= stop < before.stops(),
        contended == before.passed_shard(idx, stop),
        !before.passed_peer(idx, stop),
        after.shutdown == before.shutdown,
        after.parked == before.parked,
        after.registered(idx),
        after.workers[idx]->0.rng == before.rng_at(idx, stop),
        stolen_from(
            before.stop_items(idx, stop),
            Seq::<u64>::empty(),
            after.items(before.source(idx, stop)),
            after.deque(idx),
            Steal::Success(task),
        ),
        match before.source(idx, stop) {
            Source::Shard(j) => {
                &&& after.shards =~= before.shards.update(j, after.shards[j])
                &&& after.workers =~= before.workers.update(idx, after.workers[idx])
            },
            Source::Peer(v) => {
                &&& after.shards =~= before.shards
                &&& after.workers =~= before.workers.update(v, after.workers[v]).update(
                    idx,
                    after.workers[idx],
                )
                &&& after.registered(v)
                &&& after.workers[v]->0.rng == before.workers[v]->0.rng
            },
        },
    ensures
        scanned(before, after, idx, Scan { found: Some(task), contended }),
{
    source_is_in_range(before, idx, stop);
    let items = before.stop_items(idx, stop);
    let source = before.source(idx, stop);
    let batch = choose|batch: int|
        #![trigger items.skip(batch + 1)]
        0 <= batch < items.len() && task == items[0] && after.items(source) == items.skip(
            batch + 1,
        ) && after.deque(idx) == Seq::<u64>::empty() + items.subrange(1, batch + 1);
    let expected = before.stolen(idx, source, batch, before.rng_at(idx, stop));
    assert(after.deque(idx) =~= items.subrange(1, batch + 1));
    assert(after.shards =~= expected.shards);
    assert(after.workers =~= expected.workers);
}

impl Queue {
    /// Gives worker `idx` its context back.
    fn put_back(&mut self, idx: usize, context: WorkerContext)
        requires
            old(self).wf(),
            idx < old(self)@.workers.len(),
            deque_is_fifo(context.deque),
        ensures
            final(self).wf(),
            final(self)@ == old(self)@.with_worker(idx as int, context@),
    {
        self.workers[idx] = Some(context);
        proof {
            let expected = old(self)@.with_worker(idx as int, context@);
            assert(self@.workers =~= expected.workers);
            assert(self@.shards =~= expected.shards);
        }
    }

    /// One pass of worker `idx` over everything that may hold a task for it.
    ///
    /// A pass that finds nothing and was contended has lost a steal that may be won on the next
    /// pass; one that was not contended has seen the queue empty.
    pub fn scan(&mut self, idx: usize, probe: Probe) -> (scan: Scan)
        requires
            old(self).wf(),
            old(self)@.registered(idx as int),
        ensures
            final(self).wf(),
            scanned(old(self)@, final(self)@, idx as int, scan),
    {
        let ghost before = self@;
        let ghost i = idx as int;
        let mut context: WorkerContext = self.workers[idx].take().unwrap();
        let ghost away = QueueView { workers: before.workers.update(i, None), ..before };
        proof {
            assert(self@.workers =~= away.workers);
            assert(self@.shards =~= away.shards);
        }

        // The worker's own deque.
        if let Some(task) = deque_pop(&mut context.deque) {
            self.put_back(idx, context);
            proof {
                assert(self@.workers =~= before.pop_local(i).workers);
                assert(self@.shards =~= before.pop_local(i).shards);
            }
            return Scan { found: Some(task), contended: false };
        }
        proof {
            assert(deque_items(context.deque) =~= Seq::<u64>::empty());
            assert(!before.passed_shard(i, 0));
            assert(!before.passed_peer(i, 0));
        }

        // The preferred shard, the other shards and the other workers' deques, each once.
        let mut walk: ScanWalk = ScanWalk::new(
            idx,
            self.mask + 1,
            self.workers.len(),
            context.rng,
        );
        let mut place: Option<Place> = walk.place();
        while place.is_some()
            invariant
                self.wf(),
                self@ == away,
                before == old(self)@,
                away == (QueueView { workers: before.workers.update(i, None), ..before }),
                i == idx,
                before.registered(i),
                before.deque(i).len() == 0,
                0 < before.shards.len(),
                deque_is_fifo(context.deque),
                deque_items(context.deque) == Seq::<u64>::empty(),
                walk.wf(),
                walk.found is None,
                walk.idx == idx,
                walk.shards == before.shards.len(),
                walk.workers == before.workers.len(),
                walk.first == before.workers[i]->0.rng,
                walk.contended == before.passed_shard(i, walk.stop as int),
                !before.passed_peer(i, walk.stop as int),
                place is None <==> walk.is_over(),
                place matches Some(place) ==> place.source() == walk.source(),
            decreases walk.stops() - walk.stop,
        {
            let ghost stop: int = walk.stop as int;
            proof {
                source_is_in_range(before, i, stop);
                lemma_passed_one_more(before, i, stop);
            }
            let stolen: Steal = match place.unwrap() {
                Place::Shard(j) => self.steal_injector(j, &mut context.deque, probe),
                Place::Peer(v) => self.steal_peer(v, &mut context.deque, probe),
            };
            walk.observe(stolen);
            if let Some(task) = walk.found {
                context.rng = walk.rng;
                self.put_back(idx, context);
                proof {
                    lemma_found(before, self@, i, stop, task, walk.contended);
                }
                return Scan { found: Some(task), contended: walk.contended };
            }
            proof {
                assert(self@.shards =~= away.shards);
                assert(self@.workers =~= away.workers);
            }
            place = walk.place();
        }
        context.rng = walk.rng;
        self.put_back(idx, context);
        proof {
            walk_misses_nothing(before, i);
            let after = before.with_worker(
                i,
                WorkerView { deque: Seq::empty(), rng: before.rng_at(i, before.stops()) },
            );
            assert(self@.workers =~= after.workers);
            assert(self@.shards =~= after.shards);
        }
        Scan { found: None, contended: walk.contended }
    }
}

} // verus!
