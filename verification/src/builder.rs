//! Configuration of a pool before it is made.

use crate::bits::{clamp, clamped};
use crate::cpus::{count_cpus, is_cpu_count};
use crate::pool::{Threadpool, MAX_THREADS};
use vstd::prelude::*;

verus! {

/// Threads of a pool for which no number was set.
pub const DEFAULT_THREADS: usize = 2;

/// The configuration of a pool.
pub struct Builder {
    /// Number of worker threads.
    pub num_threads: Option<usize>,
    /// Name of each thread.
    pub thread_name: Option<String>,
    /// Stack size of each thread in bytes.
    pub thread_stack_size: Option<usize>,
    /// One thread for each CPU, unless a number is set.
    pub thread_per_core: bool,
    /// Number of queue shards.
    pub shards: Option<usize>,
}

impl Builder {
    /// Nothing is set.
    pub open spec fn is_blank(self) -> bool {
        &&& self.num_threads is None
        &&& self.thread_name is None
        &&& self.thread_stack_size is None
        &&& !self.thread_per_core
        &&& self.shards is None
    }

    /// How many threads a pool of this configuration has on a machine of `cpus` CPUs.
    pub open spec fn threads_for(self, cpus: usize) -> int {
        match self.num_threads {
            Some(threads) => clamped(threads as int, 1, MAX_THREADS as int),
            None => if self.thread_per_core {
                clamped(cpus as int, 1, MAX_THREADS as int)
            } else {
                DEFAULT_THREADS as int
            },
        }
    }

    /// A configuration in which nothing is set.
    pub fn new() -> (builder: Builder)
        ensures
            builder.is_blank(),
    {
        Builder {
            num_threads: None,
            thread_name: None,
            thread_stack_size: None,
            thread_per_core: false,
            shards: None,
        }
    }

    /// Sets the number of worker threads. It is confined to what a pool can have.
    pub fn worker_threads(self, num_threads: usize) -> (builder: Builder)
        ensures
            builder == (Builder { num_threads: Some(num_threads), ..self }),
    {
        Builder { num_threads: Some(num_threads), ..self }
    }

    /// Sets the name of each worker thread.
    pub fn thread_name<N: Into<String>>(self, name: N) -> (builder: Builder)
        ensures
            builder.thread_name is Some,
            call_ensures(N::into, (name,), builder.thread_name->0),
            builder == (Builder { thread_name: builder.thread_name, ..self }),
    {
        Builder { thread_name: Some(name.into()), ..self }
    }

    /// Sets the stack size of each worker thread in bytes.
    pub fn thread_stack_size(self, size: usize) -> (builder: Builder)
        ensures
            builder == (Builder { thread_stack_size: Some(size), ..self }),
    {
        Builder { thread_stack_size: Some(size), ..self }
    }

    /// Has one worker thread for each CPU, unless a number is set.
    pub fn thread_per_core(self, enabled: bool) -> (builder: Builder)
        ensures
            builder == (Builder { thread_per_core: enabled, ..self }),
    {
        Builder { thread_per_core: enabled, ..self }
    }

    /// Sets how many queue shards the producers share. The number is confined to at most one per
    /// worker and then rounded up to a power of two.
    pub fn shards(self, shards: usize) -> (builder: Builder)
        ensures
            builder == (Builder { shards: Some(shards), ..self }),
    {
        Builder { shards: Some(shards), ..self }
    }

    /// Makes the pool for a machine of `cpus` CPUs.
    pub fn build_for(self, cpus: usize) -> (pool: Threadpool)
        ensures
            pool.wf(),
            pool.is_new(
                self.thread_name,
                self.thread_stack_size,
                self.threads_for(cpus),
                self.shards,
            ),
    {
        let threads: usize = match self.num_threads {
            Some(threads) => clamp(threads, 1, MAX_THREADS),
            None => if self.thread_per_core {
                clamp(cpus, 1, MAX_THREADS)
            } else {
                DEFAULT_THREADS
            },
        };
        Threadpool::assemble(self.thread_name, self.thread_stack_size, threads, self.shards)
    }

    /// Makes the pool for this machine. Its number of CPUs counts only where no number of threads
    /// is set and one thread per CPU is asked for.
    pub fn build(self) -> (pool: Threadpool)
        ensures
            pool.wf(),
            exists|cpus: usize|
                {
                    &&& cpus >= 1
                    &&& self.num_threads is None && self.thread_per_core ==> is_cpu_count(cpus)
                    &&& pool.is_new(
                        self.thread_name,
                        self.thread_stack_size,
                        #[trigger] self.threads_for(cpus),
                        self.shards,
                    )
                },
    {
        let cpus: usize = if self.num_threads.is_none() && self.thread_per_core {
            count_cpus()
        } else {
            1
        };
        self.build_for(cpus)
    }
}

impl Clone for Builder {
    /// The same configuration again.
    fn clone(&self) -> (builder: Builder)
        ensures
            builder == *self,
    {
        let thread_name: Option<String> = match &self.thread_name {
            Some(name) => Some(name.clone()),
            None => None,
        };
        Builder {
            num_threads: self.num_threads,
            thread_name,
            thread_stack_size: self.thread_stack_size,
            thread_per_core: self.thread_per_core,
            shards: self.shards,
        }
    }
}

impl Default for Builder {
    /// A configuration in which nothing is set.
    fn default() -> (builder: Builder)
        ensures
            builder.is_blank(),
    {
        Builder::new()
    }
}

} // verus!
