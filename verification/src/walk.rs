//! A worker's walk over the places that may hold a task for it: its preferred shard, then each
//! other shard, then each other worker, the last two from a random start.
//!
//! The walk says where to steal next; the caller makes the attempt and tells what came of it.

use crate::bits::{is_power_of_two, mask_is_remainder, next_rand, xorshift32};
use crate::deque::Steal;
use crate::rotation::{rotated, rotated_avoids_base};
use vstd::prelude::*;

verus! {

/// A place that a walk comes to.
pub enum Source {
    /// A shard, by its index.
    Shard(int),
    /// Another worker's deque, by the worker's index.
    Peer(int),
}

/// A place to steal from.
#[derive(Clone, Copy, PartialEq, Eq, Structural, Debug)]
pub enum Place {
    /// A shard, by its index.
    Shard(usize),
    /// Another worker's deque, by the worker's index.
    Peer(usize),
}

impl Place {
    /// The place as one that a walk comes to.
    pub open spec fn source(self) -> Source {
        match self {
            Place::Shard(j) => Source::Shard(j as int),
            Place::Peer(v) => Source::Peer(v as int),
        }
    }
}

/// The generator as the walk over the other shards begins, if it was `rng` before the walk.
pub open spec fn rng_for_shards(shards: int, rng: u32) -> u32 {
    if shards > 1 {
        xorshift32(rng)
    } else {
        rng
    }
}

/// The generator as the walk over the other workers begins, if it was `rng` before the walk.
pub open spec fn rng_for_peers(shards: int, workers: int, rng: u32) -> u32 {
    if workers > 1 {
        xorshift32(rng_for_shards(shards, rng))
    } else {
        rng_for_shards(shards, rng)
    }
}

/// The generator as the walk comes to place number `stop`, if it was `rng` before the walk.
pub open spec fn rng_at_stop(shards: int, workers: int, rng: u32, stop: int) -> u32 {
    if stop == 0 {
        rng
    } else if stop < shards {
        rng_for_shards(shards, rng)
    } else {
        rng_for_peers(shards, workers, rng)
    }
}

/// The place that worker `idx` comes to as number `stop` of its walk over `shards` shards and
/// `workers` workers, if its generator was `rng` before.
pub open spec fn source_at(idx: int, shards: int, workers: int, rng: u32, stop: int) -> Source {
    let home = idx % shards;
    if stop == 0 {
        Source::Shard(home)
    } else if stop < shards {
        Source::Shard(
            rotated(home, rng_for_shards(shards, rng) as int % (shards - 1), stop - 1, shards),
        )
    } else {
        Source::Peer(
            rotated(
                idx,
                rng_for_peers(shards, workers, rng) as int % (workers - 1),
                stop - shards,
                workers,
            ),
        )
    }
}

/// Every place on a walk is a shard or another worker.
pub proof fn source_at_is_in_range(idx: int, shards: int, workers: int, rng: u32, stop: int)
    requires
        0 < shards,
        0 <= idx < workers,
        0 <= stop < shards + workers - 1,
    ensures
        match source_at(idx, shards, workers, rng, stop) {
            Source::Shard(j) => 0 <= j < shards && stop < shards,
            Source::Peer(v) => 0 <= v < workers && v != idx && shards <= stop,
        },
{
    if 0 < stop < shards {
        rotated_avoids_base(
            idx % shards,
            rng_for_shards(shards, rng) as int % (shards - 1),
            stop - 1,
            shards,
        );
    } else if stop >= shards {
        rotated_avoids_base(
            idx,
            rng_for_peers(shards, workers, rng) as int % (workers - 1),
            stop - shards,
            workers,
        );
    }
}

/// What an attempt to steal means for the walk that made it.
#[derive(Clone, Copy, PartialEq, Eq, Structural, Debug)]
pub enum Visit {
    /// The walk ends with the task of this number.
    Found(u64),
    /// The walk goes on, and was or was not contended so far.
    GoOn(bool),
}

/// What an attempt to steal means for a walk that was, or was not, contended before it.
pub open spec fn visit_of_steal(stolen: Steal, contended: bool) -> Visit {
    match stolen {
        Steal::Success(task) => Visit::Found(task),
        Steal::Retry => Visit::GoOn(true),
        Steal::Empty => Visit::GoOn(contended),
    }
}

/// Decides what follows an attempt to steal: a task ends the walk, a lost attempt makes it
/// contended, and an empty place is passed by.
pub fn after_steal(stolen: Steal, contended: bool) -> (visit: Visit)
    ensures
        visit == visit_of_steal(stolen, contended),
{
    match stolen {
        Steal::Success(task) => Visit::Found(task),
        Steal::Retry => Visit::GoOn(true),
        Steal::Empty => Visit::GoOn(contended),
    }
}

/// A worker's walk over the places that may hold a task for it.
#[derive(Clone, Copy, PartialEq, Eq, Structural, Debug)]
pub struct ScanWalk {
    /// Index of the worker.
    pub idx: usize,
    /// Number of shards.
    pub shards: usize,
    /// Number of workers.
    pub workers: usize,
    /// The worker's generator before the walk.
    pub first: u32,
    /// The worker's generator now.
    pub rng: u32,
    /// Where the rotation that the walk is in began.
    pub start: usize,
    /// Number of the place that the walk is at.
    pub stop: usize,
    /// A steal was lost on the way.
    pub contended: bool,
    /// The task that was found.
    pub found: Option<u64>,
}

impl ScanWalk {
    /// How many places the walk comes to.
    pub open spec fn stops(self) -> int {
        self.shards + self.workers - 1
    }

    /// Where the rotation that holds place number `stop` begins.
    pub open spec fn start_at(self, stop: int) -> int {
        if 0 < stop < self.shards {
            rng_for_shards(self.shards as int, self.first) as int % (self.shards - 1)
        } else if self.shards <= stop < self.stops() {
            rng_for_peers(self.shards as int, self.workers as int, self.first) as int % (
            self.workers - 1)
        } else {
            0
        }
    }

    /// The walk is well formed.
    pub open spec fn wf(self) -> bool {
        &&& 0 < self.shards <= usize::MAX / 2 + 1
        &&& is_power_of_two(self.shards as int)
        &&& self.idx < self.workers <= usize::MAX / 2 + 1
        &&& self.stop <= self.stops()
        &&& self.rng == rng_at_stop(
            self.shards as int,
            self.workers as int,
            self.first,
            self.stop as int,
        )
        &&& self.start == self.start_at(self.stop as int)
        &&& self.found is Some ==> self.stop < self.stops()
    }

    /// The walk of worker `idx`, about to begin.
    pub open spec fn begun(idx: usize, shards: usize, workers: usize, rng: u32) -> ScanWalk {
        ScanWalk {
            idx,
            shards,
            workers,
            first: rng,
            rng,
            start: 0,
            stop: 0,
            contended: false,
            found: None,
        }
    }

    /// The walk is over: it has found a task, or has come by every place.
    pub open spec fn is_over(self) -> bool {
        self.found is Some || self.stop == self.stops()
    }

    /// The place that the walk is at.
    pub open spec fn source(self) -> Source {
        source_at(
            self.idx as int,
            self.shards as int,
            self.workers as int,
            self.first,
            self.stop as int,
        )
    }

    /// The walk at its next place.
    pub open spec fn next(self) -> ScanWalk {
        ScanWalk {
            stop: (self.stop + 1) as usize,
            rng: rng_at_stop(
                self.shards as int,
                self.workers as int,
                self.first,
                self.stop + 1,
            ),
            start: self.start_at(self.stop + 1) as usize,
            ..self
        }
    }

    /// The walk after an attempt to steal at the place that it is at.
    pub open spec fn after(self, stolen: Steal) -> ScanWalk {
        match visit_of_steal(stolen, self.contended) {
            Visit::Found(task) => ScanWalk { found: Some(task), ..self },
            Visit::GoOn(contended) => ScanWalk { contended, ..self.next() },
        }
    }

    /// Begins the walk of worker `idx` over `shards` shards and `workers` workers.
    pub fn new(idx: usize, shards: usize, workers: usize, rng: u32) -> (walk: ScanWalk)
        requires
            0 < shards <= usize::MAX / 2 + 1,
            is_power_of_two(shards as int),
            idx < workers <= usize::MAX / 2 + 1,
        ensures
            walk.wf(),
            walk == ScanWalk::begun(idx, shards, workers, rng),
    {
        ScanWalk {
            idx,
            shards,
            workers,
            first: rng,
            rng,
            start: 0,
            stop: 0,
            contended: false,
            found: None,
        }
    }

    /// The place to steal from next; none once the walk is over.
    pub fn place(&self) -> (place: Option<Place>)
        requires
            self.wf(),
        ensures
            place is None <==> self.is_over(),
            place matches Some(place) ==> place.source() == self.source(),
            place matches Some(Place::Shard(j)) ==> j < self.shards,
            place matches Some(Place::Peer(v)) ==> v < self.workers && v != self.idx,
    {
        if self.found.is_some() || self.stop == self.shards + (self.workers - 1) {
            return None;
        }
        proof {
            source_at_is_in_range(
                self.idx as int,
                self.shards as int,
                self.workers as int,
                self.first,
                self.stop as int,
            );
        }
        let mask: usize = self.shards - 1;
        let home: usize = self.idx & mask;
        proof {
            mask_is_remainder(self.idx, mask);
        }
        if self.stop == 0 {
            Some(Place::Shard(home))
        } else if self.stop < self.shards {
            let span: usize = self.shards - 1;
            let turned: usize = home + 1 + (self.start + (self.stop - 1)) % span;
            proof {
                mask_is_remainder(turned, mask);
            }
            Some(Place::Shard(turned & mask))
        } else {
            let span: usize = self.workers - 1;
            let turned: usize = self.idx + 1 + (self.start + (self.stop - self.shards)) % span;
            Some(Place::Peer(turned % self.workers))
        }
    }

    /// Goes on after the attempt to steal at the place that the walk is at.
    pub fn observe(&mut self, stolen: Steal)
        requires
            old(self).wf(),
            !old(self).is_over(),
        ensures
            final(self).wf(),
            *final(self) == old(self).after(stolen),
    {
        match after_steal(stolen, self.contended) {
            Visit::Found(task) => {
                self.found = Some(task);
            },
            Visit::GoOn(contended) => {
                self.contended = contended;
                self.stop = self.stop + 1;
                if self.stop == self.shards {
                    self.start = 0;
                    if self.workers > 1 {
                        self.start = next_rand(&mut self.rng) as usize % (self.workers - 1);
                    }
                } else if self.stop == 1 {
                    self.start = next_rand(&mut self.rng) as usize % (self.shards - 1);
                } else if self.stop == self.shards + (self.workers - 1) {
                    self.start = 0;
                }
            },
        }
    }
}

} // verus!
