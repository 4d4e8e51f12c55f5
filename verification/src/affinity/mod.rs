//! CPU affinity: which cores a thread may run on, and whether it could be pinned to one.
//!
//! The system calls are the caller's. Here are the request that each of them takes and the
//! meaning of what it answers.

pub mod cpu_set;
pub mod freebsd;
pub mod linux;
pub mod macos;
pub mod windows;

use crate::affinity::cpu_set::CpuSet;
use crate::cpus::is_cpu_count;
use vstd::prelude::*;

verus! {

/// A CPU core.
#[derive(Copy, Clone, Debug, PartialEq, Eq, PartialOrd, Ord, Hash, Structural)]
pub struct CoreId {
    pub id: usize,
}

impl From<usize> for CoreId {
    fn from(id: usize) -> (core: CoreId) {
        CoreId { id }
    }
}

impl vstd::std_specs::convert::FromSpecImpl<usize> for CoreId {
    open spec fn obeys_from_spec() -> bool {
        true
    }

    open spec fn from_spec(id: usize) -> CoreId {
        CoreId { id }
    }
}

/// What a platform said of the cores that the current thread may run on.
pub enum AffinityMask {
    /// Linux and Android: the set of cores, if it could be had.
    Linux(Option<CpuSet>),
    /// FreeBSD: the set of cores, if it could be had.
    FreeBsd(Option<CpuSet>),
    /// Windows: one bit for each core, if they could be had.
    Windows(Option<u64>),
    /// macOS says nothing: every core is allowed.
    MacOs,
    /// Any other platform says nothing.
    Other,
}

/// A kind of operating system.
#[derive(Clone, Copy, PartialEq, Eq, Structural, Debug)]
pub enum Platform {
    /// Linux and Android.
    Linux,
    /// FreeBSD, with the number of words in its sets of cores.
    FreeBsd(usize),
    /// Windows.
    Windows,
    /// macOS.
    MacOs,
    /// Any other: there is nobody to ask.
    Other,
}

/// What a platform is asked in order to pin the current thread.
pub enum PinRequest {
    /// For `sched_setaffinity` and `cpuset_setaffinity`: the cores to run on.
    Cores(CpuSet),
    /// For `SetThreadAffinityMask`: one bit for each core to run on.
    Mask(u64),
    /// For `thread_policy_set`: the affinity tag.
    Tag(i32),
}

/// The cores below `size` that `allowed` holds of, in ascending order.
pub open spec fn cores_below(allowed: spec_fn(int) -> bool, size: nat) -> Seq<CoreId>
    decreases size,
{
    if size == 0 {
        Seq::empty()
    } else {
        let rest = cores_below(allowed, (size - 1) as nat);
        if allowed(size - 1) {
            rest.push(CoreId { id: (size - 1) as usize })
        } else {
            rest
        }
    }
}

/// A core is listed exactly if it is allowed and below the bound.
pub proof fn cores_below_lists_the_allowed(allowed: spec_fn(int) -> bool, size: nat, core: usize)
    requires
        size <= usize::MAX,
    ensures
        cores_below(allowed, size).contains(CoreId { id: core }) == (core < size && allowed(
            core as int,
        )),
    decreases size,
{
    if size > 0 {
        let rest = cores_below(allowed, (size - 1) as nat);
        cores_below_lists_the_allowed(allowed, (size - 1) as nat, core);
        if allowed(size - 1) {
            let all = rest.push(CoreId { id: (size - 1) as usize });
            assert(all.last() == CoreId { id: (size - 1) as usize });
            if rest.contains(CoreId { id: core }) {
                let i = choose|i: int| 0 <= i < rest.len() && rest[i] == CoreId { id: core };
                assert(all[i] == CoreId { id: core });
            }
            if all.contains(CoreId { id: core }) {
                let i = choose|i: int| 0 <= i < all.len() && all[i] == CoreId { id: core };
                if i < rest.len() {
                    assert(rest[i] == CoreId { id: core });
                }
            }
        }
    }
}

/// Cores are listed once each, in ascending order.
pub proof fn cores_below_ascends(allowed: spec_fn(int) -> bool, size: nat, i: int, j: int)
    requires
        size <= usize::MAX,
        0 <= i < j < cores_below(allowed, size).len(),
    ensures
        cores_below(allowed, size)[i].id < cores_below(allowed, size)[j].id < size,
    decreases size,
{
    if size > 0 {
        let rest = cores_below(allowed, (size - 1) as nat);
        if j < rest.len() {
            cores_below_ascends(allowed, (size - 1) as nat, i, j);
        } else {
            cores_below_lists_the_allowed(allowed, (size - 1) as nat, rest[i].id);
            assert(rest.contains(rest[i]));
        }
    }
}

/// Where one core alone is allowed, that core is all that is listed.
pub proof fn single_core_is_listed_alone(allowed: spec_fn(int) -> bool, size: nat, core: usize)
    requires
        core < size <= usize::MAX,
        forall|i: int| 0 <= i < size ==> #[trigger] allowed(i) == (i == core),
    ensures
        cores_below(allowed, size) == seq![CoreId { id: core }],
{
    lemma_no_core_up_to(allowed, core as nat);
    lemma_no_core_from(allowed, core as nat + 1, size);
    assert(cores_below(allowed, core as nat + 1) =~= seq![CoreId { id: core }]);
}

proof fn lemma_no_core_up_to(allowed: spec_fn(int) -> bool, size: nat)
    requires
        forall|i: int| 0 <= i < size ==> !#[trigger] allowed(i),
    ensures
        cores_below(allowed, size) == Seq::<CoreId>::empty(),
    decreases size,
{
    if size > 0 {
        lemma_no_core_up_to(allowed, (size - 1) as nat);
    }
}

proof fn lemma_no_core_from(allowed: spec_fn(int) -> bool, from: nat, size: nat)
    requires
        from <= size,
        forall|i: int| from <= i < size ==> !#[trigger] allowed(i),
    ensures
        cores_below(allowed, size) == cores_below(allowed, from),
    decreases size,
{
    if from < size {
        lemma_no_core_from(allowed, from, (size - 1) as nat);
    }
}

/// The cores that the current thread may run on, from what its platform said; none where the
/// platform failed to say or cannot.
pub open spec fn allowed_cores(mask: AffinityMask, ids: Option<Seq<CoreId>>) -> bool {
    match mask {
        AffinityMask::Linux(set) | AffinityMask::FreeBsd(set) => ids == match set {
            Some(set) => Some(cores_below(|i: int| set@.contains(i), set.size())),
            None => None,
        },
        AffinityMask::Windows(bits) => ids == match bits {
            Some(bits) => Some(cores_below(|i: int| windows::has_bit(bits, i), 64)),
            None => None,
        },
        AffinityMask::MacOs => {
            &&& ids is Some
            &&& 1 <= ids->0.len() <= usize::MAX
            &&& is_cpu_count(ids->0.len() as usize)
            &&& ids->0 == cores_below(|i: int| true, ids->0.len())
        },
        AffinityMask::Other => ids is None,
    }
}

/// The sequence in a list that may be missing.
pub open spec fn listed(ids: Option<Vec<CoreId>>) -> Option<Seq<CoreId>> {
    match ids {
        Some(ids) => Some(ids@),
        None => None,
    }
}

/// The cores that the current thread may run on, as far as its platform says.
pub fn get_core_ids(mask: &AffinityMask) -> (ids: Option<Vec<CoreId>>)
    requires
        mask matches AffinityMask::Linux(Some(set)) ==> set.wf(),
        mask matches AffinityMask::FreeBsd(Some(set)) ==> set.wf(),
    ensures
        allowed_cores(*mask, listed(ids)),
{
    get_core_ids_helper(mask)
}

fn get_core_ids_helper(mask: &AffinityMask) -> (ids: Option<Vec<CoreId>>)
    requires
        mask matches AffinityMask::Linux(Some(set)) ==> set.wf(),
        mask matches AffinityMask::FreeBsd(Some(set)) ==> set.wf(),
    ensures
        allowed_cores(*mask, listed(ids)),
{
    match mask {
        AffinityMask::Linux(set) => linux::get_core_ids(set),
        AffinityMask::FreeBsd(set) => freebsd::get_core_ids(set),
        AffinityMask::Windows(bits) => windows::get_core_ids(*bits),
        AffinityMask::MacOs => macos::get_core_ids(),
        AffinityMask::Other => None,
    }
}

/// `request` asks `platform` to run the current thread on `core_id` alone.
pub open spec fn asks_for(platform: Platform, core_id: CoreId, request: PinRequest) -> bool {
    match platform {
        Platform::Linux => request matches PinRequest::Cores(set) && set.words@.len()
            == linux::CPU_SET_WORDS && set@ == Set::<int>::empty().insert(core_id.id as int),
        Platform::FreeBsd(words) => request matches PinRequest::Cores(set) && set.words@.len()
            == words && set@ == Set::<int>::empty().insert(core_id.id as int),
        Platform::Windows => request == PinRequest::Mask(1u64 << (core_id.id as u64)),
        Platform::MacOs => request == PinRequest::Tag(core_id.id as i32),
        Platform::Other => false,
    }
}

/// The result `res` of the system call means that the current thread was pinned. Hardware
/// without thread affinity under macOS has nothing to do, and that counts.
pub open spec fn accepts(platform: Platform, res: i64) -> bool {
    match platform {
        Platform::Linux | Platform::FreeBsd(_) => res == 0,
        Platform::Windows => res != 0,
        Platform::MacOs => res == macos::KERN_SUCCESS || res == macos::KERN_NOT_SUPPORTED,
        Platform::Other => false,
    }
}

/// `pinned` is what comes of asking `platform`, through `pin`, for `core_id`.
pub open spec fn pin_outcome<P: FnOnce(PinRequest) -> i64>(
    platform: Platform,
    core_id: CoreId,
    pin: P,
    pinned: bool,
) -> bool {
    exists|request: PinRequest, res: i64| #[trigger]
        call_ensures(pin, (request,), res) && asks_for(platform, core_id, request) && pinned
            == accepts(platform, res)
}

/// The platform's request can name `core_id`.
pub open spec fn can_name(platform: Platform, core_id: CoreId) -> bool {
    match platform {
        Platform::Linux => core_id.id < linux::CPU_SET_WORDS * 64,
        Platform::FreeBsd(words) => core_id.id < words * 64 <= usize::MAX,
        Platform::Windows => core_id.id < 64,
        Platform::MacOs | Platform::Other => true,
    }
}

/// Pins the current thread to `core_id`, and tells whether that succeeded. The closure makes the
/// system call with the request that it is handed and gives the call's result.
pub fn set_for_current<P: FnOnce(PinRequest) -> i64>(
    platform: Platform,
    core_id: CoreId,
    pin: P,
) -> (pinned: bool)
    requires
        can_name(platform, core_id),
        forall|request: PinRequest| #[trigger] call_requires(pin, (request,)),
    ensures
        platform is Other ==> !pinned,
        platform !is Other ==> pin_outcome(platform, core_id, pin, pinned),
{
    set_for_current_helper(platform, core_id, pin)
}

fn set_for_current_helper<P: FnOnce(PinRequest) -> i64>(
    platform: Platform,
    core_id: CoreId,
    pin: P,
) -> (pinned: bool)
    requires
        can_name(platform, core_id),
        forall|request: PinRequest| #[trigger] call_requires(pin, (request,)),
    ensures
        platform is Other ==> !pinned,
        platform !is Other ==> pin_outcome(platform, core_id, pin, pinned),
{
    match platform {
        Platform::Linux => linux::set_for_current(core_id, pin),
        Platform::FreeBsd(words) => freebsd::set_for_current(core_id, words, pin),
        Platform::Windows => windows::set_for_current(core_id, pin),
        Platform::MacOs => macos::set_for_current(core_id, pin),
        Platform::Other => false,
    }
}

} // verus!
