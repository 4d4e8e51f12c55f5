//! The watch over a worker thread.

use vstd::prelude::*;

verus! {

/// Watches one worker thread. A sentry that is dropped before it was cancelled tells that its
/// worker died, and has another started in its place.
#[derive(Clone, Copy, PartialEq, Eq, Structural, Debug)]
pub struct Sentry {
    /// The sentry has not been cancelled.
    pub active: bool,
    /// The core that the worker runs on, if it has one of its own.
    pub coreid: Option<usize>,
    /// Index of the worker.
    pub index: usize,
}

/// A worker to start in the place of one that died.
#[derive(Clone, Copy, PartialEq, Eq, Structural, Debug)]
pub struct Respawn {
    pub coreid: Option<usize>,
    pub index: usize,
}

impl Sentry {
    /// A sentry on duty over worker `index`.
    pub fn new(coreid: Option<usize>, index: usize) -> (sentry: Sentry)
        ensures
            sentry == (Sentry { active: true, coreid, index }),
    {
        Sentry { active: true, coreid, index }
    }

    /// Takes the sentry off duty: its worker ends in good order.
    pub fn cancel(self) -> (sentry: Sentry)
        ensures
            sentry == (Sentry { active: false, ..self }),
    {
        Sentry { active: false, coreid: self.coreid, index: self.index }
    }

    /// What follows from the sentry's end. A worker is started only if the pool is still there
    /// and the sentry was on duty.
    pub fn on_drop(&self, pool_lives: bool) -> (respawn: Option<Respawn>)
        ensures
            respawn == if pool_lives && self.active {
                Some(Respawn { coreid: self.coreid, index: self.index })
            } else {
                None
            },
    {
        if !pool_lives {
            return None;
        }
        if self.active {
            Some(Respawn { coreid: self.coreid, index: self.index })
        } else {
            None
        }
    }
}

} // verus!
