//! The pool: its configuration, its queue and its account of worker threads.

use crate::bits::{clamp, clamped};
use crate::cpus::{count_cpus, is_cpu_count};
use crate::error::Error;
use crate::local::{SpawnFuture, State};
use crate::park::{popped, step_keeps_the_shape, PopAction, PopLoop, PopStage, WorkerParker};
use crate::producer::Producer;
use crate::queue::{pushed, shard_count_of, valid_queue_has_shards, Queue, QueueView, WorkerView};
use vstd::prelude::*;

verus! {

/// Most worker threads that a pool has.
pub const MAX_THREADS: usize = 512;

/// A worker thread to start.
pub struct WorkerSpec {
    /// Index of the worker.
    pub index: usize,
    /// Name of the thread.
    pub name: Option<String>,
    /// Stack size of the thread in bytes.
    pub stack_size: Option<usize>,
}

/// What a pool is made of.
pub struct Data {
    /// Name of each thread.
    pub name: Option<String>,
    /// Stack size of each thread in bytes.
    pub stack_size: Option<usize>,
    /// How many threads the pool was made for.
    pub num_threads: usize,
    /// How many threads the pool has.
    pub thread_count: usize,
    /// The queue of tasks.
    pub queue: Queue,
    /// The threads that are still to be started, in this order.
    pub pending: Vec<WorkerSpec>,
}

/// A pool of worker threads.
pub struct Threadpool {
    data: Data,
}

impl View for Threadpool {
    type V = Data;

    closed spec fn view(&self) -> Data {
        self.data
    }
}

impl Data {
    /// The thread to start for worker `index`.
    pub open spec fn spec_for(self, index: int) -> WorkerSpec {
        WorkerSpec { index: index as usize, name: self.name, stack_size: self.stack_size }
    }
}

impl Threadpool {
    /// The pool is one that can be made: it is for between one and the most threads, it has no
    /// more than it is for, and its queue is for as many workers.
    pub open spec fn wf(self) -> bool {
        &&& 1 <= self@.num_threads <= MAX_THREADS
        &&& self@.thread_count <= self@.num_threads
        &&& self@.queue.wf()
        &&& self@.queue@.workers.len() == self@.num_threads
    }

    /// The pool is new: its queue is empty, and all its threads are to be started.
    pub open spec fn is_new(
        self,
        name: Option<String>,
        stack_size: Option<usize>,
        threads: int,
        shards: Option<usize>,
    ) -> bool {
        &&& self@.name == name
        &&& self@.stack_size == stack_size
        &&& self@.num_threads == threads
        &&& self@.thread_count == threads
        &&& self@.queue@ == QueueView::initial(
            shard_count_of(threads as nat, shards),
            threads as nat,
        )
        &&& self@.pending@.len() == threads
        &&& forall|i: int|
            0 <= i < threads ==> #[trigger] self@.pending@[i] == self@.spec_for(i)
    }

    /// Makes a pool of `threads` threads, which are to be started.
    pub(crate) fn assemble(
        name: Option<String>,
        stack_size: Option<usize>,
        threads: usize,
        shards: Option<usize>,
    ) -> (pool: Threadpool)
        requires
            1 <= threads <= MAX_THREADS,
        ensures
            pool.wf(),
            pool.is_new(name, stack_size, threads as int, shards),
    {
        let queue = Queue::new(threads, shards);
        let mut pool = Threadpool {
            data: Data {
                name,
                stack_size,
                num_threads: threads,
                thread_count: 0,
                queue,
                pending: Vec::new(),
            },
        };
        let mut index: usize = 0;
        while index < threads
            invariant
                index <= threads <= MAX_THREADS,
                pool.wf(),
                pool@.name == name,
                pool@.stack_size == stack_size,
                pool@.num_threads == threads,
                pool@.thread_count == index,
                pool@.queue@ == QueueView::initial(
                    shard_count_of(threads as nat, shards),
                    threads as nat,
                ),
                pool@.pending@.len() == index,
                forall|i: int|
                    0 <= i < index ==> #[trigger] pool@.pending@[i] == pool@.spec_for(i),
            decreases threads - index,
        {
            pool.spin_up(index);
            index = index + 1;
        }
        pool
    }

    /// Makes a pool of `workers` threads, or as near to that as a pool can be.
    pub fn new(workers: usize) -> (pool: Threadpool)
        ensures
            pool.wf(),
            pool.is_new(None, None, clamped(workers as int, 1, MAX_THREADS as int), None),
    {
        Threadpool::assemble(None, None, clamp(workers, 1, MAX_THREADS), None)
    }

    /// Queues a task at once for the thread of `producer`. `this` is the address of the pool's
    /// queue and `hash` gives the thread's shard hint. Returns the worker with which the caller
    /// has to begin to wake one, if any may be parked.
    pub fn spawn<H: FnOnce() -> usize>(
        &mut self,
        task: u64,
        producer: &mut Producer,
        this: usize,
        hash: H,
    ) -> (wake: Option<usize>)
        requires
            old(self).wf(),
            call_requires(hash, ()),
            old(producer).worker_of(this) is Some ==> old(self)@.queue@.registered(
                old(producer).worker_of(this)->0 as int,
            ),
        ensures
            final(self).wf(),
            pushed(
                old(self)@.queue@,
                final(self)@.queue@,
                *old(producer),
                *final(producer),
                this,
                task,
                wake,
            ),
            old(producer).worker_of(this) is None && old(self)@.queue@.shards.len() > 1 && old(
                producer,
            ).shard_hint is None ==> call_ensures(hash, (), final(producer).shard_hint->0),
            final(self)@ == (Data { queue: final(self)@.queue, ..old(self)@ }),
    {
        self.data.queue.push(task, producer, this, hash)
    }

    /// The future of a job that is queued when it is first polled. Until then the pool does not
    /// hear of it.
    pub fn spawn_local<A, T>(&self, runnable: A, task: T) -> (future: SpawnFuture<A, T>)
        ensures
            future.state == (State::Pending { runnable, task }),
    {
        SpawnFuture::new(runnable, task)
    }

    /// How many worker threads the pool has.
    pub fn thread_count(&self) -> (count: usize)
        ensures
            count == self@.thread_count,
    {
        self.data.thread_count
    }

    /// How many worker threads the pool was made for.
    pub fn num_threads(&self) -> (count: usize)
        ensures
            count == self@.num_threads,
    {
        self.data.num_threads
    }

    /// Counts one more worker thread and puts it down to be started.
    pub(crate) fn spin_up(&mut self, index: usize)
        requires
            old(self).wf(),
            old(self)@.thread_count < old(self)@.num_threads,
        ensures
            final(self).wf(),
            final(self)@.thread_count == old(self)@.thread_count + 1,
            final(self)@.pending@ == old(self)@.pending@.push(old(self)@.spec_for(index as int)),
            final(self)@ == (Data {
                thread_count: final(self)@.thread_count,
                pending: final(self)@.pending,
                ..old(self)@
            }),
    {
        self.data.thread_count = self.data.thread_count + 1;
        self.put_down(index);
    }

    /// Puts a thread down to be started in the place of one that died. The pool has as many
    /// threads as before: one has gone, and one comes.
    pub fn respawn(&mut self, index: usize)
        requires
            old(self).wf(),
            index < old(self)@.num_threads,
        ensures
            final(self).wf(),
            final(self)@.thread_count == old(self)@.thread_count,
            final(self)@.pending@ == old(self)@.pending@.push(old(self)@.spec_for(index as int)),
            final(self)@ == (Data { pending: final(self)@.pending, ..old(self)@ }),
    {
        self.put_down(index);
    }

    /// Puts a thread for worker `index` down to be started.
    fn put_down(&mut self, index: usize)
        ensures
            final(self)@.pending@ == old(self)@.pending@.push(old(self)@.spec_for(index as int)),
            final(self)@ == (Data { pending: final(self)@.pending, ..old(self)@ }),
    {
        let name: Option<String> = match &self.data.name {
            Some(name) => Some(name.clone()),
            None => None,
        };
        let spec = WorkerSpec { index, name, stack_size: self.data.stack_size };
        self.data.pending.push(spec);
    }

    /// Hands out the threads that are to be started.
    pub fn take_pending(&mut self) -> (specs: Vec<WorkerSpec>)
        ensures
            specs@ == old(self)@.pending@,
            final(self)@.pending@.len() == 0,
            final(self)@ == (Data { pending: final(self)@.pending, ..old(self)@ }),
    {
        let mut specs: Vec<WorkerSpec> = Vec::new();
        std::mem::swap(&mut specs, &mut self.data.pending);
        specs
    }

    /// Gives up the threads that are to be started, and counts none: for a platform that has no
    /// threads. The pool is still the one for as many threads as it was made for.
    pub fn give_up_threads(&mut self)
        requires
            old(self).wf(),
        ensures
            final(self).wf(),
            final(self)@.pending@.len() == 0,
            final(self)@ == (Data {
                thread_count: 0,
                pending: final(self)@.pending,
                ..old(self)@
            }),
    {
        self.data.pending = Vec::new();
        self.data.thread_count = 0;
    }

    /// The pool's queue.
    pub fn queue(&self) -> (queue: &Queue)
        ensures
            *queue == self@.queue,
    {
        &self.data.queue
    }

    /// Gives worker `idx` a fresh deque. What was left in its old one is the caller's to drop.
    pub fn register_worker(&mut self, idx: usize) -> (abandoned: Vec<u64>)
        requires
            old(self).wf(),
            idx < old(self)@.num_threads,
        ensures
            final(self).wf(),
            final(self)@.queue@ == old(self)@.queue@.with_worker(
                idx as int,
                WorkerView::fresh(idx as int),
            ),
            abandoned@ == old(self)@.queue@.deque(idx as int),
            final(self)@ == (Data { queue: final(self)@.queue, ..old(self)@ }),
    {
        self.data.queue.register_worker(idx)
    }

    /// Takes a worker's next step on the queue.
    pub fn step(&mut self, pop: &mut PopLoop) -> (action: PopAction)
        requires
            old(self).wf(),
            old(self)@.queue@.registered(old(pop).idx as int),
            old(pop).can_step(),
        ensures
            final(self).wf(),
            popped(*old(pop), old(self)@.queue@, *final(pop), final(self)@.queue@, action),
            final(self)@ == (Data { queue: final(self)@.queue, ..old(self)@ }),
    {
        let action = pop.step(&mut self.data.queue);
        proof {
            valid_queue_has_shards(old(self)@.queue);
            step_keeps_the_shape(*old(pop), old(self)@.queue@, *pop, self@.queue@, action);
        }
        action
    }

    /// Lets a worker whose wait ended go on. The caller holds the lock of its parker.
    pub fn wake_up(&mut self, pop: &mut PopLoop, parker: &mut WorkerParker)
        requires
            old(self).wf(),
            old(pop).stage == PopStage::Asleep,
        ensures
            final(self).wf(),
            final(self)@.queue@ == old(self)@.queue@.with_parked(
                old(self)@.queue@.parked.wrapping_sub(1),
            ),
            *final(pop) == (PopLoop { stage: PopStage::Scanning, ..*old(pop) }),
            !final(parker).blocked,
            final(self)@ == (Data { queue: final(self)@.queue, ..old(self)@ }),
    {
        pop.wake_up(parker, &mut self.data.queue);
    }

    /// Begins the end of the pool: the workers are told to end once nothing is left for them.
    pub fn close(&mut self)
        requires
            old(self).wf(),
        ensures
            final(self).wf(),
            final(self)@.queue@ == (QueueView { shutdown: true, ..old(self)@.queue@ }),
            final(self)@ == (Data { queue: final(self)@.queue, ..old(self)@ }),
    {
        self.data.queue.shutdown();
    }

    /// Ends the pool after its threads were joined: none is left.
    pub fn finish(&mut self)
        requires
            old(self).wf(),
        ensures
            final(self).wf(),
            final(self)@ == (Data { thread_count: 0, ..old(self)@ }),
    {
        self.data.thread_count = 0;
    }

    /// Makes this pool the global one.
    pub fn build_global(self, global: &mut GlobalPool<Threadpool>) -> (result: Result<(), Error>)
        ensures
            result == global_result(*old(global)),
            old(global).pool is None ==> final(global).pool == Some(self),
            old(global).pool is Some ==> *final(global) == *old(global),
    {
        global.set(self)
    }
}

impl Default for Threadpool {
    /// Makes a pool with a thread for each CPU.
    fn default() -> (pool: Threadpool)
        ensures
            pool.wf(),
            exists|cpus: usize| #[trigger]
                is_cpu_count(cpus) && pool.is_new(
                    None,
                    None,
                    clamped(cpus as int, 1, MAX_THREADS as int),
                    None,
                ),
    {
        Threadpool::new(count_cpus())
    }
}

/// The place of the global pool.
pub struct GlobalPool<T> {
    pub pool: Option<T>,
}

/// What comes of an attempt to set the global pool: it fails exactly if there is one.
pub open spec fn global_result<T>(global: GlobalPool<T>) -> Result<(), Error> {
    if global.pool is Some {
        Err(Error::GlobalThreadpoolExists)
    } else {
        Ok(())
    }
}

/// Where a job for the global pool goes.
pub enum Dispatch<'a, T, F> {
    /// To the global pool.
    Pool(&'a T, F),
    /// Nowhere: there is no global pool, and the caller runs the job at once.
    Inline(F),
}

impl<T> GlobalPool<T> {
    /// Finds where a job goes: to the global pool, if there is one.
    pub fn dispatch<F>(&self, func: F) -> (dispatch: Dispatch<'_, T, F>)
        ensures
            dispatch == (match self.pool {
                Some(pool) => Dispatch::Pool(&pool, func),
                None => Dispatch::Inline(func),
            }),
    {
        match &self.pool {
            Some(pool) => Dispatch::Pool(pool, func),
            None => Dispatch::Inline(func),
        }
    }

    /// No global pool yet.
    pub fn new() -> (global: GlobalPool<T>)
        ensures
            global.pool is None,
    {
        GlobalPool { pool: None }
    }

    /// The global pool, if there is one.
    pub fn get(&self) -> (pool: Option<&T>)
        ensures
            pool == (match self.pool {
                Some(pool) => Some(&pool),
                None => None,
            }),
    {
        match &self.pool {
            Some(pool) => Some(pool),
            None => None,
        }
    }

    /// Sets the global pool. One that is set stays.
    pub fn set(&mut self, pool: T) -> (result: Result<(), Error>)
        ensures
            result == global_result(*old(self)),
            old(self).pool is None ==> final(self).pool == Some(pool),
            old(self).pool is Some ==> *final(self) == *old(self),
    {
        if self.pool.is_some() {
            return Err(Error::GlobalThreadpoolExists);
        }
        self.pool = Some(pool);
        Ok(())
    }
}

} // verus!
