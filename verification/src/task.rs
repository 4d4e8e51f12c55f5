//! A task that is owned by whoever will run it.

use vstd::prelude::*;

verus! {

/// What can be done with a task: `call` runs it, `drop` gives it up. Either consumes it.
pub struct TaskVTable<C, D> {
    pub call: C,
    pub drop: D,
}

/// A task in the hands of its owner, with the table of what can be done with it. It is consumed
/// exactly once: by `run`, or by `discard`.
pub struct OwnedTask<T, V> {
    pub task: T,
    pub table: V,
}

impl<T, V> OwnedTask<T, V> {
    /// Takes a task over, with what can be done with it.
    pub fn from_raw(task: T, table: V) -> (owned: OwnedTask<T, V>)
        ensures
            owned == (OwnedTask { task, table }),
    {
        OwnedTask { task, table }
    }
}

impl<T, C, D> OwnedTask<T, TaskVTable<C, D>> {
    /// Runs the task, and gives what is left of it.
    pub fn run<O>(self) -> (done: O) where C: FnOnce(T) -> O
        requires
            call_requires(self.table.call, (self.task,)),
        ensures
            call_ensures(self.table.call, (self.task,), done),
    {
        (self.table.call)(self.task)
    }

    /// Gives the task up without running it, and gives what is left of it.
    pub fn discard<O>(self) -> (done: O) where D: FnOnce(T) -> O
        requires
            call_requires(self.table.drop, (self.task,)),
        ensures
            call_ensures(self.table.drop, (self.task,), done),
    {
        (self.table.drop)(self.task)
    }
}

} // verus!
