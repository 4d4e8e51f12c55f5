//! Affinity on Linux and Android.

use crate::affinity::cpu_set::CpuSet;
use crate::affinity::{asks_for, cores_below, listed, pin_outcome, CoreId, PinRequest, Platform};
use vstd::prelude::*;

verus! {

/// Words in the set of cores that `sched_setaffinity` takes.
pub const CPU_SET_WORDS: usize = 16;

/// The cores in the set that `sched_getaffinity` gave, if it gave one.
pub fn get_core_ids(mask: &Option<CpuSet>) -> (ids: Option<Vec<CoreId>>)
    requires
        mask matches Some(set) ==> set.wf(),
    ensures
        listed(ids) == (match *mask {
            Some(set) => Some(cores_below(|i: int| set@.contains(i), set.size())),
            None => None,
        }),
{
    match mask {
        Some(set) => Some(set.core_ids()),
        None => None,
    }
}

/// Pins the current thread to `core_id`, and tells whether that succeeded: the request is the
/// set of just that core, and the closure hands it to `sched_setaffinity`.
pub fn set_for_current<P: FnOnce(PinRequest) -> i64>(core_id: CoreId, pin: P) -> (pinned: bool)
    requires
        core_id.id < CPU_SET_WORDS * 64,
        forall|request: PinRequest| #[trigger] call_requires(pin, (request,)),
    ensures
        pin_outcome(Platform::Linux, core_id, pin, pinned),
{
    let mut set = CpuSet::new_cpu_set(CPU_SET_WORDS);
    set.set(core_id.id);
    let request = PinRequest::Cores(set);
    assert(asks_for(Platform::Linux, core_id, request));
    let res: i64 = pin(request);
    res == 0
}

/// What is made of the result of `sched_getaffinity`: the set counts only if the call succeeded.
pub fn get_affinity_mask(result: i32, set: CpuSet) -> (mask: Option<CpuSet>)
    ensures
        mask == if result == 0 {
            Some(set)
        } else {
            None
        },
{
    if result == 0 {
        Some(set)
    } else {
        None
    }
}

} // verus!
