use rustos::region::{MemoryRegion, Region, RegionError, RegionType, REGION_CAPACITY};

fn region(addr: u64, len: u64, mtype: RegionType) -> Region {
    Region { addr, len, mtype }
}

fn slots(m: &MemoryRegion) -> Vec<Region> {
    (0..m.len()).map(|i| m.get(i)).collect()
}

fn usable(m: &MemoryRegion) -> Vec<Region> {
    let mut it = m.iter_usable();
    let mut out = Vec::new();
    while let Some(r) = it.next() {
        out.push(r);
    }
    out
}

#[test]
fn merge_adjacent_same_kind() {
    let mut m = MemoryRegion::new();
    m.add(region(0, 0x1000, RegionType::Usable)).unwrap();
    m.add(region(0x1000, 0x1000, RegionType::Usable)).unwrap();
    assert_eq!(slots(&m), vec![region(0, 0x2000, RegionType::Usable)]);
}

#[test]
fn no_merge_across_kind() {
    let mut m = MemoryRegion::new();
    m.add(region(0, 0x1000, RegionType::Usable)).unwrap();
    m.add(region(0x1000, 0x1000, RegionType::Reserved)).unwrap();
    assert_eq!(
        slots(&m),
        vec![region(0, 0x1000, RegionType::Usable), region(0x1000, 0x1000, RegionType::Reserved)]
    );
}

#[test]
fn out_of_order_adds_stay_sorted() {
    let mut m = MemoryRegion::new();
    for &a in &[0x9000u64, 0x1000, 0x5000, 0x3000, 0x7000] {
        m.add(region(a, 0x800, RegionType::Reserved)).unwrap();
    }
    let addrs: Vec<u64> = slots(&m).iter().map(|r| r.addr).collect();
    assert_eq!(addrs, vec![0x1000, 0x3000, 0x5000, 0x7000, 0x9000]);
}

#[test]
fn insert_before_touching_slot_is_not_merged() {
    let mut m = MemoryRegion::new();
    m.add(region(0x1000, 0x1000, RegionType::Usable)).unwrap();
    m.add(region(0, 0x1000, RegionType::Usable)).unwrap();
    assert_eq!(
        slots(&m),
        vec![region(0, 0x1000, RegionType::Usable), region(0x1000, 0x1000, RegionType::Usable)]
    );
}

#[test]
fn total_size_is_sum_of_lengths() {
    let mut m = MemoryRegion::new();
    let lens = [0x1000u64, 0x2345, 0x10, 0x9000];
    let addrs = [0x100000u64, 0x0, 0x200000, 0x101000];
    for i in 0..4 {
        m.add(region(addrs[i], lens[i], RegionType::Usable)).unwrap();
    }
    assert_eq!(m.total_size(), lens.iter().sum::<u64>());
    assert_eq!(m.last_page(), 0x200010);
}

#[test]
fn available_mb_and_pages() {
    let mut m = MemoryRegion::new();
    m.add(region(0, 3 * 1024 * 1024 + 5, RegionType::Usable)).unwrap();
    assert_eq!(m.available_mb(), 3);
    assert_eq!(m.available_pages(), 768);
}

#[test]
fn capacity_overflow_is_reported() {
    let mut m = MemoryRegion::new();
    for i in 0..REGION_CAPACITY as u64 {
        m.add(region(i * 0x2000, 0x1000, RegionType::Usable)).unwrap();
    }
    assert_eq!(m.len(), 64);
    let before = slots(&m);
    let total = m.total_size();
    assert_eq!(
        m.add(region(0x1000_0000, 0x1000, RegionType::Usable)),
        Err(RegionError::RegionOverflow)
    );
    assert_eq!(slots(&m), before);
    assert_eq!(m.total_size(), total);
    // A region that merges into the last slot still fits.
    assert_eq!(m.add(region(63 * 0x2000 + 0x1000, 0x1000, RegionType::Usable)), Ok(()));
    assert_eq!(m.len(), 64);
}

#[test]
fn size_overflow_is_reported() {
    let mut m = MemoryRegion::new();
    assert_eq!(
        m.add(region(u64::MAX - 10, 0x1000, RegionType::Usable)),
        Err(RegionError::SizeOverflow)
    );
    m.add(region(0, u64::MAX - 5, RegionType::Reserved)).unwrap();
    assert_eq!(m.add(region(0, 10, RegionType::Usable)), Err(RegionError::SizeOverflow));
    assert_eq!(m.len(), 1);
}

#[test]
fn iter_usable_filters_and_restarts() {
    let mut m = MemoryRegion::new();
    m.add(region(0x5000, 0x1000, RegionType::AcpiReclaimable)).unwrap();
    m.add(region(0x1000, 0x1000, RegionType::Reserved)).unwrap();
    m.add(region(0x0, 0x1000, RegionType::Usable)).unwrap();
    m.add(region(0x9000, 0x1000, RegionType::BadMemory)).unwrap();
    m.add(region(0xB000, 0x1000, RegionType::Usable)).unwrap();
    let want = vec![
        region(0x0, 0x1000, RegionType::Usable),
        region(0x5000, 0x1000, RegionType::AcpiReclaimable),
        region(0xB000, 0x1000, RegionType::Usable),
    ];
    assert_eq!(usable(&m), want);
    assert_eq!(usable(&m), want);
    let mut it = m.iter_usable();
    for _ in 0..3 {
        assert!(it.next().is_some());
    }
    assert_eq!(it.next(), None);
    assert_eq!(it.next(), None);
}

#[test]
fn empty_region_list_yields_nothing() {
    let m = MemoryRegion::new();
    assert_eq!(m.len(), 0);
    assert_eq!(m.total_size(), 0);
    assert!(usable(&m).is_empty());
}

#[test]
fn region_new_and_next_addr() {
    let r = Region::new();
    assert_eq!(r, region(0, 0, RegionType::Usable));
    assert_eq!(region(0x1000, 0x234, RegionType::Kernel).next_addr(), 0x1234);
}

#[test]
fn equal_start_addresses_are_both_kept() {
    let mut m = MemoryRegion::new();
    m.add(region(0x1000, 0x1000, RegionType::Usable)).unwrap();
    m.add(region(0x1000, 0x1000, RegionType::Usable)).unwrap();
    assert_eq!(
        slots(&m),
        vec![region(0x1000, 0x1000, RegionType::Usable), region(0x1000, 0x1000, RegionType::Usable)]
    );
    assert_eq!(m.total_size(), 0x2000);
}

#[test]
fn empty_last_slot_absorbs_region_at_same_address() {
    let mut m = MemoryRegion::new();
    m.add(region(0x1000, 0, RegionType::Usable)).unwrap();
    m.add(region(0x1000, 0x1000, RegionType::Usable)).unwrap();
    assert_eq!(slots(&m), vec![region(0x1000, 0x1000, RegionType::Usable)]);
}
