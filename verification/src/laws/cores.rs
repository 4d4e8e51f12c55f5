//! Which cores a thread may run on, and which core it asks for.

use crate::affinity::cpu_set::CpuSet;
use crate::affinity::{
    self, cores_below, cores_below_ascends, cores_below_lists_the_allowed, freebsd, linux, macos,
    windows, AffinityMask, CoreId, PinRequest, Platform,
};
use crate::cpus::is_cpu_count;
use vstd::prelude::*;

verus! {

/// Bit `c` of the words, counted from the lowest of the first.
pub open spec fn has_core(words: Seq<u64>, c: int) -> bool {
    words[c / 64] & (1u64 << ((c % 64) as u64)) != 0
}

/// The words name `core`, and no other core.
pub open spec fn names_only(words: Seq<u64>, core: int) -> bool {
    &&& 0 <= core < words.len() * 64
    &&& forall|c: int| 0 <= c < words.len() * 64 ==> #[trigger] has_core(words, c) == (c == core)
}

/// The request names `core` alone, in `size` words.
pub open spec fn asks_for_set(request: PinRequest, size: int, core: CoreId) -> bool {
    &&& request is Cores
    &&& request->Cores_0.words@.len() == size
    &&& names_only(request->Cores_0.words@, core.id as int)
}

/// A set that names one core alone does not name another alone.
pub proof fn sets_for_two_cores_differ(one: PinRequest, size: int, a: CoreId, b: CoreId)
    requires
        asks_for_set(one, size, a),
        asks_for_set(one, size, b),
    ensures
        a == b,
{
    assert(has_core(one->Cores_0.words@, a.id as int));
}

proof fn lemma_names_only(set: CpuSet, core: usize)
    requires
        set@ == Set::<int>::empty().insert(core as int),
        core < set.words@.len() * 64,
    ensures
        names_only(set.words@, core as int),
{
    assert forall|c: int| 0 <= c < set.words@.len() * 64 implies #[trigger] has_core(set.words@, c)
        == (c == core) by {
        assert(set@.contains(c) == has_core(set.words@, c));
    }
}

/// On Linux the request to run on a core lists that core and no other, in sixteen words, and the
/// thread counts as pinned exactly if the call gives zero.
pub proof fn linux_request_names_the_core_alone<P: FnOnce(PinRequest) -> i64>(
    core: CoreId,
    pin: P,
    pinned: bool,
)
    requires
        call_ensures(linux::set_for_current::<P>, (core, pin), pinned),
        core.id < 1024,
    ensures
        exists|request: PinRequest, res: i64| #[trigger]
            call_ensures(pin, (request,), res) && asks_for_set(request, 16, core) && pinned == (res
                == 0),
{
    let (request, res) = choose|request: PinRequest, res: i64| #[trigger]
        call_ensures(pin, (request,), res) && affinity::asks_for(Platform::Linux, core, request)
            && pinned == affinity::accepts(Platform::Linux, res);
    lemma_names_only(request->Cores_0, core.id);
}

/// On FreeBSD the request to run on a core lists that core and no other, in as many words as the
/// system's sets have, and the thread counts as pinned exactly if the call gives zero.
pub proof fn freebsd_request_names_the_core_alone<P: FnOnce(PinRequest) -> i64>(
    core: CoreId,
    words: usize,
    pin: P,
    pinned: bool,
)
    requires
        call_ensures(freebsd::set_for_current::<P>, (core, words, pin), pinned),
        core.id < words * 64,
    ensures
        exists|request: PinRequest, res: i64| #[trigger]
            call_ensures(pin, (request,), res) && asks_for_set(request, words as int, core)
                && pinned == (res == 0),
{
    let platform = Platform::FreeBsd(words);
    let (request, res) = choose|request: PinRequest, res: i64| #[trigger]
        call_ensures(pin, (request,), res) && affinity::asks_for(platform, core, request)
            && pinned == affinity::accepts(platform, res);
    lemma_names_only(request->Cores_0, core.id);
}

/// On Windows the mask to run on a core has that core's bit and no other, and the thread counts as
/// pinned exactly if the call gives anything but zero.
pub proof fn windows_request_names_the_core_alone<P: FnOnce(PinRequest) -> i64>(
    core: CoreId,
    pin: P,
    pinned: bool,
)
    requires
        call_ensures(windows::set_for_current::<P>, (core, pin), pinned),
        core.id < 64,
    ensures
        exists|request: PinRequest, res: i64| #[trigger]
            call_ensures(pin, (request,), res) && asks_for_mask(request, core) && pinned == (res
                != 0),
{
    lemma_mask(core);
}

/// The request is a mask with the core's bit and no other.
pub open spec fn asks_for_mask(request: PinRequest, core: CoreId) -> bool {
    &&& request is Mask
    &&& request->Mask_0 == 1u64 << (core.id as u64)
    &&& forall|c: u64|
        c < 64 ==> (#[trigger] (request->Mask_0 & (1u64 << c)) != 0) == (c == core.id)
}

proof fn lemma_mask(core: CoreId)
    requires
        core.id < 64,
    ensures
        asks_for_mask(PinRequest::Mask(1u64 << (core.id as u64)), core),
{
    let id: u64 = core.id as u64;
    assert(forall|c: u64| c < 64 ==> (#[trigger] ((1u64 << id) & (1u64 << c)) != 0) == (c == id))
        by (bit_vector)
        requires
            id < 64,
    ;
}

/// On macOS the tag is the core's number, and the thread counts as pinned exactly if the call gives
/// zero or tells that there is nothing to do.
pub proof fn macos_request_tags_with_the_core<P: FnOnce(PinRequest) -> i64>(
    core: CoreId,
    pin: P,
    pinned: bool,
)
    requires
        call_ensures(macos::set_for_current::<P>, (core, pin), pinned),
    ensures
        exists|request: PinRequest, res: i64| #[trigger]
            call_ensures(pin, (request,), res) && request == PinRequest::Tag(core.id as i32)
                && pinned == (res == 0 || res == 46),
{
}

/// Whatever the platform, the request asks for the core that was named, and what the call gives is
/// read as the platform means it. Where there is nobody to ask, the thread is not pinned.
pub proof fn request_asks_for_the_core<P: FnOnce(PinRequest) -> i64>(
    platform: Platform,
    core: CoreId,
    pin: P,
    pinned: bool,
)
    requires
        call_ensures(affinity::set_for_current::<P>, (platform, core, pin), pinned),
        platform is Linux ==> core.id < 1024,
        platform matches Platform::FreeBsd(words) ==> core.id < words * 64,
        platform is Windows ==> core.id < 64,
    ensures
        platform is Other ==> !pinned,
        platform !is Other ==> exists|request: PinRequest, res: i64| #[trigger]
            call_ensures(pin, (request,), res) && match platform {
                Platform::Linux => asks_for_set(request, 16, core) && pinned == (res == 0),
                Platform::FreeBsd(words) => asks_for_set(request, words as int, core) && pinned == (
                res == 0),
                Platform::Windows => asks_for_mask(request, core) && pinned == (res != 0),
                Platform::MacOs => request == PinRequest::Tag(core.id as i32) && pinned == (res == 0
                    || res == 46),
                Platform::Other => false,
            },
{
    if platform !is Other {
        let (request, res) = choose|request: PinRequest, res: i64| #[trigger]
            call_ensures(pin, (request,), res) && affinity::asks_for(platform, core, request)
                && pinned == affinity::accepts(platform, res);
        match platform {
            Platform::Linux | Platform::FreeBsd(_) => lemma_names_only(request->Cores_0, core.id),
            Platform::Windows => lemma_mask(core),
            _ => {},
        }
    }
}

/// Every core that a platform's request has room for can be asked for: the first 1024 on Linux, as
/// many as the system's sets have bits on FreeBSD, the first 64 on Windows, and any elsewhere.
pub proof fn every_core_can_be_asked_for<P: FnOnce(PinRequest) -> i64>(
    platform: Platform,
    core: CoreId,
    pin: P,
)
    requires
        forall|request: PinRequest| #[trigger] call_requires(pin, (request,)),
        match platform {
            Platform::Linux => core.id < 1024,
            Platform::FreeBsd(words) => core.id < words * 64 <= usize::MAX,
            Platform::Windows => core.id < 64,
            Platform::MacOs | Platform::Other => true,
        },
    ensures
        call_requires(affinity::set_for_current::<P>, (platform, core, pin)),
{
}

/// Where a set of cores is asked for, the requests for two different cores are never the same.
pub proof fn requests_for_two_cores_differ<P: FnOnce(PinRequest) -> i64>(
    platform: Platform,
    one: CoreId,
    pin_one: P,
    pinned_one: bool,
    two: CoreId,
    pin_two: P,
    pinned_two: bool,
)
    requires
        platform is Linux || platform is FreeBsd,
        call_ensures(affinity::set_for_current::<P>, (platform, one, pin_one), pinned_one),
        call_ensures(affinity::set_for_current::<P>, (platform, two, pin_two), pinned_two),
        platform is Linux ==> one.id < 1024 && two.id < 1024,
        platform matches Platform::FreeBsd(words) ==> one.id < words * 64 && two.id < words * 64,
        one != two,
    ensures
        exists|first: PinRequest, res_one: i64, second: PinRequest, res_two: i64|
            {
                &&& #[trigger] call_ensures(pin_one, (first,), res_one)
                &&& #[trigger] call_ensures(pin_two, (second,), res_two)
                &&& first != second
                &&& first is Cores
                &&& second is Cores
                &&& has_core(first->Cores_0.words@, one.id as int)
                &&& !has_core(first->Cores_0.words@, two.id as int)
                &&& has_core(second->Cores_0.words@, two.id as int)
                &&& !has_core(second->Cores_0.words@, one.id as int)
            },
{
    let (first, res_one) = choose|request: PinRequest, res: i64| #[trigger]
        call_ensures(pin_one, (request,), res) && affinity::asks_for(platform, one, request)
            && pinned_one == affinity::accepts(platform, res);
    let (second, res_two) = choose|request: PinRequest, res: i64| #[trigger]
        call_ensures(pin_two, (request,), res) && affinity::asks_for(platform, two, request)
            && pinned_two == affinity::accepts(platform, res);
    lemma_names_only(first->Cores_0, one.id);
    lemma_names_only(second->Cores_0, two.id);
    assert(has_core(first->Cores_0.words@, one.id as int));
    assert(!has_core(first->Cores_0.words@, two.id as int));
    assert(has_core(second->Cores_0.words@, two.id as int));
    assert(!has_core(second->Cores_0.words@, one.id as int));
}

/// A new set names no core; one that is added is there and leaves the others as they were; what is
/// asked of a core is told.
pub proof fn set_names_what_was_added(
    size: usize,
    empty: CpuSet,
    set: &mut CpuSet,
    added: usize,
    asked: usize,
    told: bool,
)
    requires
        call_ensures(CpuSet::new_cpu_set, (size,), empty),
        call_ensures(CpuSet::set, (set, added), ()),
        added < set.words@.len() * 64,
        call_ensures(CpuSet::is_set, (final(set), asked), told),
        asked < set.words@.len() * 64,
    ensures
        empty.words@.len() == size,
        forall|c: int| 0 <= c < size * 64 ==> !#[trigger] has_core(empty.words@, c),
        final(set).words@.len() == old(set).words@.len(),
        forall|c: int|
            0 <= c < old(set).words@.len() * 64 ==> #[trigger] has_core(final(set).words@, c) == (
            has_core(old(set).words@, c) || c == added),
        told == (has_core(old(set).words@, asked as int) || asked == added),
{
    assert forall|c: int| 0 <= c < size * 64 implies !#[trigger] has_core(empty.words@, c) by {
        assert(!empty@.contains(c));
    }
    assert forall|c: int| 0 <= c < set.words@.len() * 64 implies #[trigger] has_core(
        final(set).words@,
        c,
    ) == (has_core(set.words@, c) || c == added) by {
        assert(final(set)@.contains(c) == (set@.contains(c) || c == added));
    }
    assert(final(set)@.contains(asked as int) == has_core(final(set).words@, asked as int));
}

/// The list holds the cores for which `allowed` holds, below `size`, each once and in ascending
/// order.
pub open spec fn lists(ids: Seq<CoreId>, allowed: spec_fn(int) -> bool, size: nat) -> bool {
    &&& forall|i: int, j: int| 0 <= i < j < ids.len() ==> (#[trigger] ids[i]).id < (
    #[trigger] ids[j]).id
    &&& forall|c: usize| #[trigger]
        ids.contains(CoreId { id: c }) == (c < size && allowed(c as int))
}

proof fn lemma_lists(allowed: spec_fn(int) -> bool, size: nat)
    requires
        size <= usize::MAX,
    ensures
        lists(cores_below(allowed, size), allowed, size),
{
    let ids = cores_below(allowed, size);
    assert forall|i: int, j: int| 0 <= i < j < ids.len() implies (#[trigger] ids[i]).id < (
    #[trigger] ids[j]).id by {
        cores_below_ascends(allowed, size, i, j);
    }
    assert forall|c: usize| #[trigger]
        ids.contains(CoreId { id: c }) == (c < size && allowed(c as int)) by {
        cores_below_lists_the_allowed(allowed, size, c);
    }
}

proof fn lemma_set_lists(set: CpuSet)
    requires
        set.words@.len() * 64 <= usize::MAX,
    ensures
        lists(
            cores_below(|i: int| set@.contains(i), set.size()),
            |c: int| has_core(set.words@, c),
            set.words@.len() * 64,
        ),
{
    let held = |i: int| set@.contains(i);
    let ids = cores_below(held, set.size());
    lemma_lists(held, set.size());
    assert forall|c: usize| #[trigger]
        ids.contains(CoreId { id: c }) == (c < set.words@.len() * 64 && has_core(
            set.words@,
            c as int,
        )) by {
        if c < set.words@.len() * 64 {
            assert(set@.contains(c as int) == has_core(set.words@, c as int));
        }
    }
}

/// The cores of a set are those whose bits are set, in ascending order, on Linux and on FreeBSD
/// alike; without a set there is no list.
pub proof fn listed_cores_are_those_of_the_set(
    set: CpuSet,
    ids: Vec<CoreId>,
    mask: Option<CpuSet>,
    on_linux: Option<Vec<CoreId>>,
    on_freebsd: Option<Vec<CoreId>>,
)
    requires
        set.words@.len() * 64 <= usize::MAX,
        call_ensures(CpuSet::core_ids, (&set,), ids),
        mask matches Some(held) ==> held.words@.len() * 64 <= usize::MAX,
        call_ensures(linux::get_core_ids, (&mask,), on_linux),
        call_ensures(freebsd::get_core_ids, (&mask,), on_freebsd),
    ensures
        lists(ids@, |c: int| has_core(set.words@, c), set.words@.len() * 64),
        mask is None ==> on_linux is None && on_freebsd is None,
        mask matches Some(held) ==> on_linux is Some && on_freebsd is Some && lists(
            on_linux->0@,
            |c: int| has_core(held.words@, c),
            held.words@.len() * 64,
        ) && lists(
            on_freebsd->0@,
            |c: int| has_core(held.words@, c),
            held.words@.len() * 64,
        ),
{
    lemma_set_lists(set);
    if let Some(held) = mask {
        lemma_set_lists(held);
    }
}

/// The cores of a Windows mask are those whose bits are set, in ascending order.
pub proof fn listed_cores_are_those_of_the_mask(mask: Option<u64>, ids: Option<Vec<CoreId>>)
    requires
        call_ensures(windows::get_core_ids, (mask,), ids),
    ensures
        mask is None ==> ids is None,
        mask matches Some(bits) ==> ids is Some && lists(
            ids->0@,
            |c: int| bits & (1u64 << (c as u64)) != 0,
            64,
        ),
{
    if let Some(bits) = mask {
        lemma_mask_lists(bits);
    }
}

proof fn lemma_mask_lists(bits: u64)
    ensures
        lists(
            cores_below(|i: int| windows::has_bit(bits, i), 64),
            |c: int| bits & (1u64 << (c as u64)) != 0,
            64,
        ),
{
    let held = |i: int| windows::has_bit(bits, i);
    let ids = cores_below(held, 64);
    lemma_lists(held, 64);
    assert forall|c: usize| #[trigger]
        ids.contains(CoreId { id: c }) == (c < 64 && bits & (1u64 << (c as int as u64)) != 0) by {
        if c < 64 {
            let b: u64 = c as u64;
            assert((bits & (1u64 << b) == 1u64 << b) == (bits & (1u64 << b) != 0)) by (bit_vector)
                requires
                    b < 64,
            ;
        }
    }
}

/// A machine of so many CPUs has the cores from zero up, in order.
pub proof fn every_cpu_is_a_core(cpus: usize, ids: Vec<CoreId>, all: Option<Vec<CoreId>>)
    requires
        call_ensures(macos::core_ids_for, (cpus,), ids),
        call_ensures(macos::get_core_ids, (), all),
    ensures
        ids@ == Seq::new(cpus as nat, |i: int| CoreId { id: i as usize }),
        all is Some,
        is_cpu_count(all->0@.len() as usize),
        all->0@ == Seq::new(all->0@.len(), |i: int| CoreId { id: i as usize }),
{
    lemma_all(cpus as nat);
    lemma_all(all->0@.len());
}

proof fn lemma_all(n: nat)
    ensures
        cores_below(|i: int| true, n) == Seq::new(n, |i: int| CoreId { id: i as usize }),
    decreases n,
{
    if n > 0 {
        lemma_all((n - 1) as nat);
    }
    assert(cores_below(|i: int| true, n) =~= Seq::new(n, |i: int| CoreId { id: i as usize }));
}

/// Whatever the platform, the cores that are listed are those that it said; none are, where it
/// could not say.
pub proof fn listed_cores_are_those_allowed(mask: AffinityMask, ids: Option<Vec<CoreId>>)
    requires
        mask matches AffinityMask::Linux(Some(set)) ==> set.words@.len() * 64 <= usize::MAX,
        mask matches AffinityMask::FreeBsd(Some(set)) ==> set.words@.len() * 64 <= usize::MAX,
        call_ensures(affinity::get_core_ids, (&mask,), ids),
    ensures
        match mask {
            AffinityMask::Linux(Some(set)) => ids is Some && lists(
                ids->0@,
                |c: int| has_core(set.words@, c),
                set.words@.len() * 64,
            ),
            AffinityMask::FreeBsd(Some(set)) => ids is Some && lists(
                ids->0@,
                |c: int| has_core(set.words@, c),
                set.words@.len() * 64,
            ),
            AffinityMask::Windows(Some(bits)) => ids is Some && lists(
                ids->0@,
                |c: int| bits & (1u64 << (c as u64)) != 0,
                64,
            ),
            AffinityMask::MacOs => ids is Some && is_cpu_count(ids->0@.len() as usize) && ids->0@
                == Seq::new(ids->0@.len(), |i: int| CoreId { id: i as usize }),
            _ => ids is None,
        },
{
    match mask {
        AffinityMask::Linux(Some(set)) => lemma_set_lists(set),
        AffinityMask::FreeBsd(Some(set)) => lemma_set_lists(set),
        AffinityMask::Windows(Some(bits)) => lemma_mask_lists(bits),
        AffinityMask::MacOs => lemma_all(ids->0@.len()),
        _ => {},
    }
}

/// What the system gave counts if its call succeeded, which is zero on Linux and FreeBSD and
/// anything else on Windows.
pub proof fn mask_counts_if_the_call_succeeded(
    result: i32,
    set: CpuSet,
    on_linux: Option<CpuSet>,
    on_freebsd: Option<CpuSet>,
    bits: usize,
    on_windows: Option<u64>,
)
    requires
        call_ensures(linux::get_affinity_mask, (result, set), on_linux),
        call_ensures(freebsd::get_affinity_mask, (result, set), on_freebsd),
        call_ensures(windows::get_affinity_mask, (result, bits), on_windows),
    ensures
        result == 0 ==> on_linux == Some(set) && on_freebsd == Some(set) && on_windows is None,
        result != 0 ==> on_linux is None && on_freebsd is None && on_windows == Some(bits as u64),
{
}

/// A core is known by its number.
pub proof fn core_is_known_by_its_number(id: usize, core: CoreId)
    requires
        call_ensures(<CoreId as From<usize>>::from, (id,), core),
    ensures
        core.id == id,
{
}

} // verus!
