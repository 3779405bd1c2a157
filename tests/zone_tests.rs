use rustos::region::{MemoryRegion, Region, RegionType};
use rustos::zone::{end_of_zone, foster_zone, order, populate_zones, zone_type, Zone, Zones};

fn region(addr: u64, len: u64) -> Region {
    Region { addr, len, mtype: RegionType::Usable }
}

#[test]
fn order_buckets() {
    assert_eq!(order(4096), 0);
    assert_eq!(order(4097), 1);
    assert_eq!(order(2 * 1024 * 1024), 9);
    assert_eq!(order(4 * 1024 * 1024), 10);
    assert_eq!(order(0), 0);
    assert_eq!(order(1), 0);
    assert_eq!(order(3 * 4096), 2);
    assert_eq!(order(u64::MAX), 10);
}

#[test]
fn zone_classification() {
    assert_eq!(zone_type(0), zone_type::ZoneDMA);
    assert_eq!(zone_type(0xFF_FFFF), zone_type::ZoneDMA);
    assert_eq!(zone_type(0x100_0000), zone_type::ZoneDMA32);
    assert_eq!(zone_type(0xFFFF_FFFF), zone_type::ZoneDMA32);
    assert_eq!(zone_type(0x1_0000_0000), zone_type::ZoneHighMem);
    assert_eq!(end_of_zone(zone_type::ZoneDMA), 0xFF_FFFF);
    assert_eq!(end_of_zone(zone_type::ZoneDMA32), 0xFFFF_FFFF);
    assert_eq!(end_of_zone(zone_type::ZoneHighMem), u64::MAX);
}

#[test]
fn split_at_dma_boundary() {
    let mut zones = Zones::new();
    let pushes = foster_zone(&mut zones, region(0x00FF_F000, 0x2000));
    assert_eq!(
        pushes,
        vec![
            (zone_type::ZoneDMA, region(0xFF_F000, 0x1000)),
            (zone_type::ZoneDMA32, region(0x100_0000, 0x1000)),
        ]
    );
    assert_eq!(pushes[0].1.addr + pushes[0].1.len - 1, 0xFF_FFFF);
    assert_eq!(pushes.iter().map(|p| p.1.len).sum::<u64>(), 0x2000);
    assert_eq!(zones.counters(zone_type::ZoneDMA), (0xFFF, 1, 1));
    assert_eq!(zones.counters(zone_type::ZoneDMA32), (0x1000, 1, 1));
    assert_eq!(zones.counters(zone_type::ZoneHighMem), (0, 0, 0));
}

#[test]
fn split_across_all_three_zones() {
    let mut zones = Zones::new();
    let r = region(0x00F0_0000, 0x1_0000_0000);
    let pushes = foster_zone(&mut zones, r);
    assert_eq!(
        pushes,
        vec![
            (zone_type::ZoneDMA, region(0xF0_0000, 0x10_0000)),
            (zone_type::ZoneDMA32, region(0x100_0000, 0xFF00_0000)),
            (zone_type::ZoneHighMem, region(0x1_0000_0000, 0xF0_0000)),
        ]
    );
    assert_eq!(pushes.iter().map(|p| p.1.len).sum::<u64>(), r.len);
}

#[test]
fn region_inside_one_zone_is_pushed_whole() {
    let mut zones = Zones::new();
    let pushes = foster_zone(&mut zones, region(0x2000_0000, 0x5000));
    assert_eq!(pushes, vec![(zone_type::ZoneDMA32, region(0x2000_0000, 0x5000))]);
    assert_eq!(zones.counters(zone_type::ZoneDMA32), (0x20000, 5, 5));
}

#[test]
fn empty_region_is_pushed_nowhere() {
    let mut zones = Zones::new();
    assert!(foster_zone(&mut zones, region(0x1000, 0)).is_empty());
    assert_eq!(zones.counters(zone_type::ZoneDMA), (0, 0, 0));
}

#[test]
fn push_region_counts_pages() {
    let mut z = Zone::init();
    assert!(!z.is_initialized());
    assert_eq!(z.push_region(region(0x3000, 0x2800)), (2, 2));
    assert_eq!(z.start_pfn(), 3);
    assert!(z.is_initialized());
    assert_eq!(z.push_region(region(0x10000, 0x1000)), (3, 3));
    assert_eq!(z.start_pfn(), 3);
    assert_eq!(z.total_pages(), 3);
    assert_eq!(z.available_pages(), 3);
    for k in 0..10 {
        assert_eq!(z.free_area_head(k), None);
    }
}

#[test]
fn populate_from_region_list() {
    let mut m = MemoryRegion::new();
    m.add(Region { addr: 0, len: 0x9F000, mtype: RegionType::Usable }).unwrap();
    m.add(Region { addr: 0x9F000, len: 0x1000, mtype: RegionType::Reserved }).unwrap();
    m.add(Region { addr: 0x10_0000, len: 0x7FF0_0000, mtype: RegionType::Usable }).unwrap();
    m.add(Region { addr: 0x1_0000_0000, len: 0x4000_0000, mtype: RegionType::Usable }).unwrap();
    let mut zones = Zones::new();
    let pushes = populate_zones(&mut zones, &m);
    assert_eq!(
        pushes,
        vec![
            (zone_type::ZoneDMA, region(0, 0x9F000)),
            (zone_type::ZoneDMA, region(0x10_0000, 0xF0_0000)),
            (zone_type::ZoneDMA32, region(0x100_0000, 0x7F00_0000)),
            (zone_type::ZoneHighMem, region(0x1_0000_0000, 0x4000_0000)),
        ]
    );
    assert_eq!(zones.counters(zone_type::ZoneDMA), (0, 0x9F + 0xF00, 0x9F + 0xF00));
    assert_eq!(zones.counters(zone_type::ZoneDMA32), (0x1000, 0x7F000, 0x7F000));
    assert_eq!(zones.counters(zone_type::ZoneHighMem), (0x10_0000, 0x40000, 0x40000));
}

#[test]
fn region_ending_at_top_of_address_space() {
    let mut zones = Zones::new();
    let r = region(0xFFFF_FFFF_FFFF_0000, 0x1_0000);
    let pushes = foster_zone(&mut zones, r);
    assert_eq!(pushes, vec![(zone_type::ZoneHighMem, r)]);
    assert_eq!(zones.counters(zone_type::ZoneHighMem), (0xF_FFFF_FFFF_FFF0, 0x10, 0x10));
    let mut zones = Zones::new();
    let whole = region(0, u64::MAX);
    let pushes = foster_zone(&mut zones, whole);
    assert_eq!(pushes.len(), 3);
    assert_eq!(pushes[2], (zone_type::ZoneHighMem, region(0x1_0000_0000, u64::MAX - 0x1_0000_0000)));
}
