use affinitypool::affinity::cpu_set::CpuSet;
use affinitypool::affinity::{
    freebsd, get_core_ids, linux, macos, set_for_current, windows, AffinityMask, CoreId,
    PinRequest, Platform,
};

/// The cores that the process may use, as the kernel of the machine would list them.
fn all_cores(words: usize) -> CpuSet {
    let mut set = CpuSet::new_cpu_set(words);
    for cpu in 0..num_cpus::get() {
        set.set(cpu);
    }
    set
}

fn listed(ids: &[CoreId]) -> Vec<usize> {
    ids.iter().map(|core| core.id).collect()
}

#[test]
fn test_linux_get_affinity_mask() {
    match linux::get_affinity_mask(0, all_cores(16)) {
        Some(_) => {}
        None => {
            assert!(false);
        }
    }
}

#[test]
fn linux_mask_is_missing_after_a_failed_call() {
    assert!(linux::get_affinity_mask(-1, all_cores(16)).is_none());
    assert!(linux::get_core_ids(&None).is_none());
}

#[test]
fn test_linux_get_core_ids() {
    match linux::get_core_ids(&linux::get_affinity_mask(0, all_cores(16))) {
        Some(set) => {
            assert_eq!(set.len(), num_cpus::get());
        }
        None => {
            assert!(false);
        }
    }
}

#[test]
fn test_linux_set_for_current() {
    let mut kernel = all_cores(16);
    let ids = linux::get_core_ids(&Some(all_cores(16))).unwrap();

    assert!(ids.len() > 0);

    let res = linux::set_for_current(ids[0], |request| match request {
        PinRequest::Cores(set) => {
            kernel = set;
            0
        }
        _ => -1,
    });
    assert_eq!(res, true);

    let mut core_mask = CpuSet::new_cpu_set(16);
    core_mask.set(ids[0].id);
    let new_mask = linux::get_affinity_mask(0, kernel).unwrap();
    let mut is_equal = true;
    for i in 0..1024 {
        if core_mask.is_set(i) != new_mask.is_set(i) {
            is_equal = false;
        }
    }
    assert!(is_equal);
}

#[test]
fn linux_refusal_is_reported() {
    assert!(!linux::set_for_current(CoreId { id: 1023 }, |_| -1));
}

#[test]
fn test_freebsd_get_affinity_mask() {
    match freebsd::get_affinity_mask(0, all_cores(4)) {
        Some(_) => {}
        None => {
            assert!(false);
        }
    }
    assert!(freebsd::get_affinity_mask(-1, all_cores(4)).is_none());
}

#[test]
fn test_freebsd_get_core_ids() {
    match freebsd::get_core_ids(&Some(all_cores(4))) {
        Some(set) => {
            assert_eq!(set.len(), num_cpus::get());
        }
        None => {
            assert!(false);
        }
    }
}

#[test]
fn test_freebsd_set_for_current() {
    let mut kernel = all_cores(4);
    let ids = freebsd::get_core_ids(&Some(all_cores(4))).unwrap();

    assert!(ids.len() > 0);

    let res = freebsd::set_for_current(ids[0], 4, |request| match request {
        PinRequest::Cores(set) => {
            kernel = set;
            0
        }
        _ => -1,
    });
    assert_eq!(res, true);

    let mut core_mask = CpuSet::new_cpu_set(4);
    core_mask.set(ids[0].id);
    let mut is_equal = true;
    for i in 0..256 {
        if core_mask.is_set(i) != kernel.is_set(i) {
            is_equal = false;
        }
    }
    assert!(is_equal);
}

#[test]
fn test_macos_get_core_ids() {
    match macos::get_core_ids() {
        Some(set) => {
            assert_eq!(set.len(), num_cpus::get());
        }
        None => {
            panic!("Failed to get core IDs");
        }
    }
}

#[test]
fn test_macos_set_for_current() {
    let ids = macos::get_core_ids().unwrap();
    assert!(!ids.is_empty());
    assert!(macos::set_for_current(ids[0], |request| match request {
        PinRequest::Tag(0) => 0,
        _ => 4,
    }));
}

#[test]
fn macos_counts_missing_hardware_support_as_success() {
    assert!(macos::set_for_current(CoreId { id: 3 }, |_| 46));
    assert!(!macos::set_for_current(CoreId { id: 3 }, |_| 268435459));
}

#[test]
fn macos_tag_is_the_core() {
    let mut tag = -1;
    macos::set_for_current(CoreId { id: 7 }, |request| {
        if let PinRequest::Tag(given) = request {
            tag = given;
        }
        0
    });
    assert_eq!(tag, 7);
    assert_eq!(listed(&macos::core_ids_for(3)), vec![0, 1, 2]);
}

/// The mask of a process that may use every core.
fn process_mask() -> usize {
    let mut mask: usize = 0;
    for cpu in 0..num_cpus::get() {
        mask |= 1 << cpu;
    }
    mask
}

#[test]
fn test_windows_get_core_ids() {
    match windows::get_core_ids(windows::get_affinity_mask(1, process_mask())) {
        Some(set) => {
            assert_eq!(set.len(), num_cpus::get());
        }
        None => {
            assert!(false);
        }
    }
}

#[test]
fn test_windows_set_for_current() {
    let ids = windows::get_core_ids(windows::get_affinity_mask(1, process_mask())).unwrap();

    assert!(ids.len() > 0);

    assert!(windows::set_for_current(ids[0], |request| match request {
        PinRequest::Mask(1) => 255,
        _ => 0,
    }));
}

#[test]
fn windows_masks_name_their_cores() {
    let ids = windows::get_core_ids(Some(0b1000_0101 | 1 << 63)).unwrap();
    assert_eq!(listed(&ids), vec![0, 2, 7, 63]);
    assert!(windows::get_core_ids(None).is_none());
    assert_eq!(windows::get_affinity_mask(0, 5), None);
    assert_eq!(windows::get_affinity_mask(7, 5), Some(5));
    let mut asked = 0;
    assert!(!windows::set_for_current(CoreId { id: 63 }, |request| {
        if let PinRequest::Mask(mask) = request {
            asked = mask;
        }
        0
    }));
    assert_eq!(asked, 0x8000_0000_0000_0000);
}

#[test]
fn sets_list_their_members_in_ascending_order() {
    let mut set = CpuSet::new_cpu_set(2);
    for cpu in [127, 64, 0, 63, 64] {
        set.set(cpu);
    }
    assert_eq!(listed(&set.core_ids()), vec![0, 63, 64, 127]);
    assert_eq!(set.words, vec![1 | 1 << 63, 1 | 1 << 63]);
    assert!(set.is_set(63));
    assert!(!set.is_set(62));
    assert!(CpuSet::new_cpu_set(2).core_ids().is_empty());
}

#[test]
fn every_platform_is_asked_in_its_own_way() {
    let mut set = CpuSet::new_cpu_set(16);
    set.set(5);
    let ids = get_core_ids(&AffinityMask::Linux(Some(set))).unwrap();
    assert_eq!(listed(&ids), vec![5]);
    let mut set = CpuSet::new_cpu_set(4);
    set.set(255);
    let ids = get_core_ids(&AffinityMask::FreeBsd(Some(set))).unwrap();
    assert_eq!(listed(&ids), vec![255]);
    let ids = get_core_ids(&AffinityMask::Windows(Some(6))).unwrap();
    assert_eq!(listed(&ids), vec![1, 2]);
    assert_eq!(get_core_ids(&AffinityMask::MacOs).unwrap().len(), num_cpus::get());
    assert!(get_core_ids(&AffinityMask::Other).is_none());

    let core = CoreId::from(2);
    assert_eq!(core, CoreId { id: 2 });
    let cores = |request: PinRequest| match request {
        PinRequest::Cores(set) if listed(&set.core_ids()) == vec![2] => 0,
        _ => 1,
    };
    assert!(set_for_current(Platform::Linux, core, cores));
    assert!(set_for_current(Platform::FreeBsd(4), core, cores));
    assert!(set_for_current(Platform::Windows, core, |request| {
        if matches!(request, PinRequest::Mask(4)) { 1 } else { 0 }
    }));
    assert!(set_for_current(Platform::MacOs, core, |request| {
        if matches!(request, PinRequest::Tag(2)) { 0 } else { 1 }
    }));
    assert!(!set_for_current(Platform::Other, core, |_| 0));
}
