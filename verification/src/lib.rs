//! A pool of worker threads for blocking jobs.

pub mod affinity;
pub mod bits;
pub mod builder;
pub mod conservation;
pub mod cpus;
pub mod deque;
pub mod error;
pub mod handshake;
pub mod job;
pub mod laws;
pub mod local;
pub mod park;
pub mod pool;
pub mod producer;
pub mod queue;
pub mod rotation;
pub mod runs;
pub mod sentry;
pub mod sleepers;
pub mod spawn;
pub mod task;
pub mod walk;

pub use crate::builder::Builder;
pub use crate::error::Error;
pub use crate::local::SpawnFuture;
pub use crate::pool::{GlobalPool, Threadpool, MAX_THREADS};
