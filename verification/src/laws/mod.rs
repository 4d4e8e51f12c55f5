//! What each operation is for, said of its inputs and results alone.
//!
//! Each law speaks of the calls themselves: it takes what a call was given and what it gave, and
//! says how they relate, whatever way the operation takes.

pub mod cores;
pub mod futures;
pub mod jobs;
pub mod lanes;
pub mod numbers;
pub mod parking;
pub mod pools;
pub mod pushes;
pub mod queues;
pub mod walks;
