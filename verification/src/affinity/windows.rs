//! Affinity on Windows.

use crate::affinity::{asks_for, cores_below, listed, pin_outcome, CoreId, PinRequest, Platform};
use vstd::prelude::*;

verus! {

/// Bit `i` of a mask is set.
pub open spec fn has_bit(mask: u64, i: int) -> bool {
    mask & (1u64 << (i as u64)) == 1u64 << (i as u64)
}

/// The mask that asks for a core has that core's bit and no other.
pub proof fn pin_mask_has_one_bit(core: u64, i: u64)
    requires
        core < 64,
        i < 64,
    ensures
        has_bit(1u64 << core, i as int) == (i == core),
{
    assert(((1u64 << core) & (1u64 << i) == 1u64 << i) == (i == core)) by (bit_vector)
        requires
            core < 64,
            i < 64,
    ;
}

/// The cores in the mask that `GetProcessAffinityMask` gave, if it gave one.
pub fn get_core_ids(mask: Option<u64>) -> (ids: Option<Vec<CoreId>>)
    ensures
        listed(ids) == (match mask {
            Some(mask) => Some(cores_below(|i: int| has_bit(mask, i), 64)),
            None => None,
        }),
{
    match mask {
        Some(mask) => {
            let ghost allowed = |i: int| has_bit(mask, i);
            let mut core_ids: Vec<CoreId> = Vec::new();
            let mut i: usize = 0;
            while i < 64
                invariant
                    i <= 64,
                    allowed == |i: int| has_bit(mask, i),
                    core_ids@ == cores_below(allowed, i as nat),
                decreases 64 - i,
            {
                let test_mask: u64 = 1u64 << (i as u64);
                if mask & test_mask == test_mask {
                    core_ids.push(CoreId { id: i });
                }
                i = i + 1;
            }
            Some(core_ids)
        },
        None => None,
    }
}

/// Pins the current thread to `core_id`, and tells whether that succeeded: the request is the
/// mask of just that core's bit, and the closure hands it to `SetThreadAffinityMask`.
pub fn set_for_current<P: FnOnce(PinRequest) -> i64>(core_id: CoreId, pin: P) -> (pinned: bool)
    requires
        core_id.id < 64,
        forall|request: PinRequest| #[trigger] call_requires(pin, (request,)),
    ensures
        pin_outcome(Platform::Windows, core_id, pin, pinned),
{
    let request = PinRequest::Mask(1u64 << (core_id.id as u64));
    assert(asks_for(Platform::Windows, core_id, request));
    let res: i64 = pin(request);
    res != 0
}

/// What is made of the result of `GetProcessAffinityMask`: the mask counts only if the call
/// succeeded.
pub fn get_affinity_mask(res: i32, process_mask: usize) -> (mask: Option<u64>)
    ensures
        mask == if res != 0 {
            Some(process_mask as u64)
        } else {
            None
        },
{
    if res != 0 {
        Some(process_mask as u64)
    } else {
        None
    }
}

} // verus!
