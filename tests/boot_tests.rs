use rustos::addressing::{page_down, page_up, pfn, BootAllocator, Physical, Virtual};
use rustos::multiboot::{init_from_mbinfo, E820Entry, MBInfo};
use rustos::region::{Region, RegionError, RegionType};

fn entry(addr: u64, len: u64, type_: u32) -> Vec<u8> {
    let mut b = Vec::new();
    for v in [20u32, addr as u32, (addr >> 32) as u32, len as u32, (len >> 32) as u32, type_] {
        b.extend_from_slice(&v.to_le_bytes());
    }
    b
}

#[test]
fn canonical_virtual_addresses() {
    assert!(Virtual::new(0).is_ok());
    assert!(Virtual::new(0x7FFF_FFFF_FFFF).is_ok());
    assert!(Virtual::new(0x8000_0000_0000).is_err());
    assert!(Virtual::new(0xFFFF_7FFF_FFFF_FFFF).is_err());
    assert!(Virtual::new(0xFFFF_8000_0000_0000).is_ok());
    assert!(Virtual::new(u64::MAX).is_ok());
    assert!(Virtual::new(0x0001_0000_0000_0000).is_err());
    assert_eq!(Virtual::new(0x8004000000).unwrap().to_u64(), 0x8004000000);
    assert_eq!(Physical::new(0x1234).to_u64(), 0x1234);
}

#[test]
fn page_arithmetic() {
    assert_eq!(page_up(0), 0);
    assert_eq!(page_up(1), 0x1000);
    assert_eq!(page_up(0x1000), 0x1000);
    assert_eq!(page_up(0x1001), 0x2000);
    assert_eq!(page_down(0x1FFF), 0x1000);
    assert_eq!(page_down(0x2000), 0x2000);
    assert_eq!(pfn(0x12345678), 0x12345);
}

#[test]
fn boot_allocator_bumps_by_pages() {
    let mut a = BootAllocator::new(0x10_0123).unwrap();
    assert_eq!(a.next_free().to_u64(), 0x10_1000);
    assert!(a.can_allocate(10));
    let v = a.allocate(10);
    assert_eq!(v.to_u64(), 0x10_1000);
    assert_eq!(a.next_free().to_u64(), 0x10_2000);
    let w = a.allocate(0x2001);
    assert_eq!(w.to_u64(), 0x10_2000);
    assert_eq!(a.next_free().to_u64(), 0x10_5000);
}

#[test]
fn boot_allocator_out_of_memory() {
    let mut a = BootAllocator::new(0x7FFF_FFFF_E000).unwrap();
    assert!(a.can_allocate(0x1000));
    assert_eq!(a.allocate(0x1000).to_u64(), 0x7FFF_FFFF_E000);
    assert!(!a.can_allocate(0x1000));
    assert!(a.can_allocate(0));
    assert_eq!(a.next_free().to_u64(), 0x7FFF_FFFF_F000);
    assert!(!a.can_allocate(u64::MAX));
    assert!(!a.can_allocate(u64::MAX - 0x800));
    assert!(BootAllocator::new(0x8000_0000_0000).is_err());
    assert!(BootAllocator::new(u64::MAX).is_err());
}

#[test]
fn e820_entry_to_region() {
    let b = entry(0x1_2345_6000, 0x2_0000_1000, 1);
    let e = E820Entry::parse(&b, 0);
    assert_eq!(e.mem_lo, 0x2345_6000);
    assert_eq!(e.mem_hi, 1);
    let r = Region::from(&e);
    assert_eq!(r, Region { addr: 0x1_2345_6000, len: 0x2_0000_1000, mtype: RegionType::Usable });
    let kinds = [
        (1u32, RegionType::Usable),
        (2, RegionType::Reserved),
        (3, RegionType::AcpiReclaimable),
        (4, RegionType::AcpiNvs),
        (5, RegionType::BadMemory),
        (9, RegionType::Reserved),
    ];
    for (code, kind) in kinds {
        let e = E820Entry::parse(&entry(0, 0x1000, code), 0);
        assert_eq!(Region::from(&e).mtype, kind);
    }
}

#[test]
fn memory_map_folds_into_regions() {
    let mut map = Vec::new();
    map.extend(entry(0x10_0000, 0x1000, 1));
    map.extend(entry(0x0, 0x9F000, 1));
    map.extend(entry(0x9F000, 0x1000, 2));
    map.extend(entry(0x10_1000, 0x1000, 1));
    map.extend([0u8; 7]);
    let m = init_from_mbinfo(&map).unwrap();
    assert_eq!(m.len(), 3);
    assert_eq!(m.get(0), Region { addr: 0, len: 0x9F000, mtype: RegionType::Usable });
    assert_eq!(m.get(1), Region { addr: 0x9F000, len: 0x1000, mtype: RegionType::Reserved });
    assert_eq!(m.get(2), Region { addr: 0x10_0000, len: 0x2000, mtype: RegionType::Usable });
    assert_eq!(m.total_size(), 0x9F000 + 0x3000);
}

#[test]
fn memory_map_overflow_is_reported() {
    let mut map = Vec::new();
    for i in 0..65u64 {
        map.extend(entry(i * 0x2000, 0x1000, 1));
    }
    assert!(matches!(init_from_mbinfo(&map), Err(RegionError::RegionOverflow)));
    assert_eq!(init_from_mbinfo(&[]).unwrap().len(), 0);
}

#[test]
fn boot_info_locates_memory_map() {
    let mut info = vec![0u8; 52];
    info[44..48].copy_from_slice(&48u32.to_le_bytes());
    info[48..52].copy_from_slice(&0x9000u32.to_le_bytes());
    let m = MBInfo::parse(&info).unwrap();
    assert_eq!(m, MBInfo { mmap_len: 48, mmap_addr: 0x9000 });
    assert_eq!(m.entry_count(), 2);
    assert_eq!(MBInfo::parse(&info[..51]), None);
}
