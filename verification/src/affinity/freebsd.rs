//! Affinity on FreeBSD.

use crate::affinity::cpu_set::CpuSet;
use crate::affinity::{asks_for, cores_below, listed, pin_outcome, CoreId, PinRequest, Platform};
use vstd::prelude::*;

verus! {

/// The cores in the set that `cpuset_getaffinity` gave, if it gave one.
pub fn get_core_ids(mask: &Option<CpuSet>) -> (ids: Option<Vec<CoreId>>)
    requires
        mask matches Some(set) ==> set.wf(),
    ensures
        listed(ids) == (match *mask {
            Some(set) => Some(cores_below(|i: int| set@.contains(i), set.size())),
            None => None,
        }),
{
    match mask {
        Some(set) => Some(set.core_ids()),
        None => None,
    }
}

/// Pins the current thread to `core_id`, and tells whether that succeeded: the request is the
/// set of just that core, and the closure hands it to `cpuset_setaffinity`.
pub fn set_for_current<P: FnOnce(PinRequest) -> i64>(
    core_id: CoreId,
    words: usize,
    pin: P,
) -> (pinned: bool)
    requires
        core_id.id < words * 64 <= usize::MAX,
        forall|request: PinRequest| #[trigger] call_requires(pin, (request,)),
    ensures
        pin_outcome(Platform::FreeBsd(words), core_id, pin, pinned),
{
    let mut set = CpuSet::new_cpu_set(words);
    set.set(core_id.id);
    let request = PinRequest::Cores(set);
    assert(asks_for(Platform::FreeBsd(words), core_id, request));
    let res: i64 = pin(request);
    res == 0
}

/// What is made of the result of `cpuset_getaffinity`: the set counts only if the call succeeded.
pub fn get_affinity_mask(result: i32, set: CpuSet) -> (mask: Option<CpuSet>)
    ensures
        mask == if result == 0 {
            Some(set)
        } else {
            None
        },
{
    if result == 0 {
        Some(set)
    } else {
        None
    }
}

} // verus!
