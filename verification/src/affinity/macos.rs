//! Affinity on macOS, where a thread gets a tag rather than a core.

use crate::affinity::{asks_for, cores_below, pin_outcome, CoreId, PinRequest, Platform};
use crate::cpus::{count_cpus, is_cpu_count};
use vstd::prelude::*;

verus! {

/// The call succeeded.
pub const KERN_SUCCESS: i64 = 0;

/// The hardware has no thread affinity.
pub const KERN_NOT_SUPPORTED: i64 = 46;

/// The cores of a machine of `cpus` CPUs.
pub fn core_ids_for(cpus: usize) -> (ids: Vec<CoreId>)
    ensures
        ids@ == cores_below(|i: int| true, cpus as nat),
        ids@.len() == cpus,
{
    let ghost allowed = |i: int| true;
    let mut ids: Vec<CoreId> = Vec::new();
    let mut n: usize = 0;
    while n < cpus
        invariant
            n <= cpus,
            allowed == |i: int| true,
            ids@ == cores_below(allowed, n as nat),
            ids@.len() == n,
        decreases cpus - n,
    {
        ids.push(CoreId { id: n });
        n = n + 1;
    }
    ids
}

/// The cores of this machine: as many as it has CPUs.
pub fn get_core_ids() -> (ids: Option<Vec<CoreId>>)
    ensures
        ids is Some,
        1 <= ids->0@.len() <= usize::MAX,
        is_cpu_count(ids->0@.len() as usize),
        ids->0@ == cores_below(|i: int| true, ids->0@.len()),
{
    Some(core_ids_for(count_cpus()))
}

/// Gives the current thread the affinity tag of `core_id`, and tells whether that succeeded; the
/// closure hands the tag to `thread_policy_set`. Where the hardware has no thread affinity there
/// is nothing to do, and that counts as success.
pub fn set_for_current<P: FnOnce(PinRequest) -> i64>(core_id: CoreId, pin: P) -> (pinned: bool)
    requires
        forall|request: PinRequest| #[trigger] call_requires(pin, (request,)),
    ensures
        pin_outcome(Platform::MacOs, core_id, pin, pinned),
{
    let request = PinRequest::Tag(core_id.id as i32);
    assert(asks_for(Platform::MacOs, core_id, request));
    let res: i64 = pin(request);
    res == KERN_SUCCESS || res == KERN_NOT_SUPPORTED
}

} // verus!
