//! What one producing thread remembers between its pushes.

use crate::bits::{is_power_of_two, mask_is_remainder, wrapping_keeps_remainder};
use vstd::prelude::*;

verus! {

/// Pushes in a row that go to one shard before later ones spill over to its neighbours.
pub const SPILL_THRESHOLD: u32 = 8;

/// A thread's registration as a worker of a queue.
#[derive(Clone, Copy, PartialEq, Eq, Structural, Debug)]
pub struct WorkerHandle {
    /// Address of the queue that the thread works for.
    pub queue: usize,
    /// Index of the worker.
    pub idx: usize,
}

/// The shard that a thread last preferred, and how often in a row.
#[derive(Clone, Copy, PartialEq, Eq, Structural, Debug)]
pub struct Spill {
    pub last: usize,
    pub count: u32,
}

/// The state that each thread keeps for its pushes.
#[derive(Clone, Copy, Debug)]
pub struct Producer {
    /// The thread's shard hint, once it was computed.
    pub shard_hint: Option<usize>,
    /// The run of pushes that the thread is in.
    pub spill: Spill,
    /// The queue that the thread is a worker of, while it is one.
    pub worker: Option<WorkerHandle>,
}

/// The run of pushes after one more push that prefers `preferred`.
pub open spec fn spill_after(spill: Spill, preferred: int) -> Spill {
    Spill {
        last: preferred as usize,
        count: if spill.last == preferred {
            if spill.count == u32::MAX {
                u32::MAX
            } else {
                (spill.count + 1) as u32
            }
        } else {
            1
        },
    }
}

/// The shard that a push goes to: the preferred one within the threshold, then one further along
/// for each push beyond it.
pub open spec fn spill_target(spill: Spill, preferred: int, shards: int) -> int {
    if spill.count <= SPILL_THRESHOLD {
        preferred
    } else {
        (preferred + (spill.count - SPILL_THRESHOLD)) % shards
    }
}

impl Producer {
    /// The state of a thread that has pushed nothing and works for no queue.
    pub fn new() -> (producer: Producer)
        ensures
            producer.shard_hint is None,
            producer.spill == (Spill { last: usize::MAX, count: 0 }),
            producer.worker is None,
    {
        Producer {
            shard_hint: None,
            spill: Spill { last: usize::MAX, count: 0 },
            worker: None,
        }
    }

    /// The thread's shard hint. It is computed by `hash` on first use and kept.
    pub fn current_shard_hint<H: FnOnce() -> usize>(&mut self, hash: H) -> (hint: usize)
        requires
            call_requires(hash, ()),
        ensures
            old(self).shard_hint is Some ==> hint == old(self).shard_hint->0,
            old(self).shard_hint is None ==> call_ensures(hash, (), hint),
            *final(self) == (Producer { shard_hint: Some(hint), ..*old(self) }),
    {
        match self.shard_hint {
            Some(hint) => hint,
            None => {
                let hint: usize = hash();
                self.shard_hint = Some(hint);
                hint
            },
        }
    }

    /// Marks the thread as worker `idx` of the queue at address `queue`.
    pub fn enter_worker_scope(&mut self, queue: usize, idx: usize)
        ensures
            *final(self) == (Producer { worker: Some(WorkerHandle { queue, idx }), ..*old(self) }),
    {
        self.worker = Some(WorkerHandle { queue, idx });
    }

    /// Ends the thread's registration as a worker.
    pub fn leave_worker_scope(&mut self)
        ensures
            *final(self) == (Producer { worker: None, ..*old(self) }),
    {
        self.worker = None;
    }

    /// The worker that the thread is for the queue at address `queue`, if it is one.
    pub open spec fn worker_of(self, queue: usize) -> Option<usize> {
        match self.worker {
            Some(handle) => if handle.queue == queue {
                Some(handle.idx)
            } else {
                None
            },
            None => None,
        }
    }

    /// The worker that the thread is for the queue at address `queue`, if it is one.
    pub fn current_worker(&self, queue: usize) -> (idx: Option<usize>)
        ensures
            idx == self.worker_of(queue),
    {
        match self.worker {
            Some(handle) => if handle.queue == queue {
                Some(handle.idx)
            } else {
                None
            },
            None => None,
        }
    }

    /// Picks the shard for a push of a thread with this hint, and counts the push.
    pub fn route(&mut self, hint: usize, mask: usize) -> (target: usize)
        requires
            is_power_of_two(mask + 1),
            mask < usize::MAX,
        ensures
            *final(self) == (Producer {
                spill: spill_after(old(self).spill, hint as int % (mask + 1)),
                ..*old(self)
            }),
            target == spill_target(
                final(self).spill,
                hint as int % (mask + 1),
                mask + 1,
            ),
            target <= mask,
    {
        let preferred: usize = hint & mask;
        proof {
            mask_is_remainder(hint, mask);
        }
        let count: u32 = if self.spill.last == preferred {
            self.spill.count.saturating_add(1)
        } else {
            1
        };
        self.spill = Spill { last: preferred, count };
        if count <= SPILL_THRESHOLD {
            preferred
        } else {
            let beyond: usize = (count - SPILL_THRESHOLD) as usize;
            let place: usize = preferred.wrapping_add(beyond);
            proof {
                mask_is_remainder(place, mask);
                wrapping_keeps_remainder(preferred, beyond, mask + 1);
            }
            place & mask
        }
    }
}

/// The run of pushes after `pushes` pushes in a row that all prefer `preferred`.
pub open spec fn spill_run(spill: Spill, preferred: int, pushes: nat) -> Spill
    decreases pushes,
{
    if pushes == 0 {
        spill
    } else {
        spill_after(spill_run(spill, preferred, (pushes - 1) as nat), preferred)
    }
}

/// A thread that changes over to a shard stays with it for as many pushes as the threshold says;
/// then each further push goes one shard further along.
pub proof fn run_stays_then_rotates(spill: Spill, preferred: int, pushes: nat, shards: int)
    requires
        0 <= preferred < shards <= usize::MAX,
        spill.last != preferred,
        1 <= pushes <= u32::MAX,
    ensures
        spill_run(spill, preferred, pushes) == (Spill {
            last: preferred as usize,
            count: pushes as u32,
        }),
        pushes <= SPILL_THRESHOLD ==> spill_target(
            spill_run(spill, preferred, pushes),
            preferred,
            shards,
        ) == preferred,
        pushes > SPILL_THRESHOLD ==> spill_target(
            spill_run(spill, preferred, pushes),
            preferred,
            shards,
        ) == (preferred + (pushes - SPILL_THRESHOLD)) % shards,
    decreases pushes,
{
    if pushes > 1 {
        run_stays_then_rotates(spill, preferred, (pushes - 1) as nat, shards);
    } else {
        assert(spill_run(spill, preferred, 0) == spill);
    }
}

/// A thread whose run goes on beyond the threshold reaches every shard within one round.
pub proof fn long_run_reaches_every_shard(
    spill: Spill,
    preferred: int,
    pushes: nat,
    shards: int,
    shard: int,
)
    requires
        0 <= preferred < shards <= usize::MAX,
        0 <= shard < shards,
        spill.last != preferred,
        pushes >= SPILL_THRESHOLD,
        pushes + shards <= u32::MAX,
    ensures
        exists|later: nat|
            pushes < later <= pushes + shards && spill_target(
                #[trigger] spill_run(spill, preferred, later),
                preferred,
                shards,
            ) == shard,
{
    let base: int = preferred + (pushes - SPILL_THRESHOLD) + 1;
    let ahead: int = (shard - base) % shards;
    let later: nat = (pushes + 1 + ahead) as nat;
    run_stays_then_rotates(spill, preferred, later, shards);
    vstd::arithmetic::div_mod::lemma_add_mod_noop(base, shard - base, shards);
    vstd::arithmetic::div_mod::lemma_add_mod_noop(base, ahead, shards);
    vstd::arithmetic::div_mod::lemma_mod_twice(shard - base, shards);
    vstd::arithmetic::div_mod::lemma_small_mod(shard as nat, shards as nat);
    assert((base + ahead) % shards == shard);
    assert(spill_target(spill_run(spill, preferred, later), preferred, shards) == shard);
}

} // verus!
