use vstd::prelude::*;
use crate::addressing::PAGE_SIZE;
use crate::region::{lemma_sum_len_usable, sum_len, usable_of, MemoryRegion, Region};
use crate::spinlock::{SpinLock, SpinLocked};

verus! {

/// Number of free-area buckets of a zone.
pub const FREE_AREA_ORDERS: usize = 10;

/// The address range a physical address falls in.
#[allow(non_camel_case_types)]
#[derive(Clone, Copy, PartialEq, Eq, Structural, Debug)]
pub enum zone_type {
    /// For the device that only support 0 ~ 16MB address space.
    ZoneDMA,
    /// For the device that only support 0 ~ 4G address space.
    ZoneDMA32,
    /// Remainder
    ZoneHighMem,
}

/// The zone of an address: below 16 MiB, below 4 GiB, or above.
pub open spec fn zone_of(addr: int) -> zone_type {
    if addr < 0x1000000 {
        zone_type::ZoneDMA
    } else if addr < 0x1_0000_0000 {
        zone_type::ZoneDMA32
    } else {
        zone_type::ZoneHighMem
    }
}

/// The first address of a zone.
pub open spec fn zone_first(zt: zone_type) -> int {
    match zt {
        zone_type::ZoneDMA => 0,
        zone_type::ZoneDMA32 => 0x1000000,
        zone_type::ZoneHighMem => 0x1_0000_0000,
    }
}

/// The last address of a zone (inclusive).
pub open spec fn zone_last(zt: zone_type) -> int {
    match zt {
        zone_type::ZoneDMA => 0xFF_FFFF,
        zone_type::ZoneDMA32 => 0xFFFF_FFFF,
        zone_type::ZoneHighMem => 0xFFFF_FFFF_FFFF_FFFF,
    }
}

/// The zone an address falls in.
pub fn zone_type(addr: u64) -> (r: zone_type)
    ensures
        r == zone_of(addr as int),
{
    if addr < 0x1000000 {
        zone_type::ZoneDMA
    } else if addr < 0x1_0000_0000 {
        zone_type::ZoneDMA32
    } else {
        zone_type::ZoneHighMem
    }
}

/// The last address (inclusive) of a zone.
pub fn end_of_zone(zt: zone_type) -> (r: u64)
    ensures
        r == zone_last(zt),
{
    match zt {
        zone_type::ZoneDMA => 0x1000000 - 1,
        zone_type::ZoneDMA32 => 0x1_0000_0000 - 1,
        zone_type::ZoneHighMem => 0xffff_ffff_ffff_ffff,
    }
}

/// Number of pages needed to hold `size` bytes.
pub open spec fn pages_for(size: int) -> int {
    (size + 4095) / 4096
}

/// Two to the power `k`.
pub open spec fn pow2(k: int) -> int
    decreases k,
{
    if k <= 0 {
        1
    } else {
        2 * pow2(k - 1)
    }
}

/// The free-area bucket of a block of `size` bytes, rounded up to whole
/// pages: the least `k` below 10 such that `2^k` pages hold it, or 10 when
/// none does.
pub fn order(size: u64) -> (r: usize)
    ensures
        r <= FREE_AREA_ORDERS,
        r < FREE_AREA_ORDERS ==> pages_for(size as int) <= pow2(r as int),
        r > 0 ==> pages_for(size as int) > pow2(r - 1),
{
    proof {
        reveal_with_fuel(pow2, 10);
    }
    let pages: u64 = size / PAGE_SIZE + if size % PAGE_SIZE == 0 {
        0
    } else {
        1
    };
    assert(pages == pages_for(size as int));
    if pages <= 0x1 {
        0
    } else if pages <= 0x2 {
        1
    } else if pages <= 0x4 {
        2
    } else if pages <= 0x8 {
        3
    } else if pages <= 0x10 {
        4
    } else if pages <= 0x20 {
        5
    } else if pages <= 0x40 {
        6
    } else if pages <= 0x80 {
        7
    } else if pages <= 0x100 {
        8
    } else if pages <= 0x200 {
        9
    } else {
        10
    }
}

/// A node of a free list: a free block and the arena index of the next one.
#[derive(Clone, Copy, PartialEq, Eq, Structural, Debug)]
pub struct FreeArea {
    pub addr: u64,
    pub next: Option<usize>,
}

/// Page bookkeeping of one zone, with the heads of its free lists (one per
/// order), each an index into an arena of page descriptors.
pub struct Zone {
    start_pfn: u64,
    total_pages: u64,
    available_pages: u64,
    free_area: [Option<usize>; 10],
}

/// What a `Zone` counts.
pub ghost struct ZoneView {
    pub start_pfn: u64,
    pub total_pages: u64,
    pub available_pages: u64,
}

impl View for Zone {
    type V = ZoneView;

    closed spec fn view(&self) -> ZoneView {
        ZoneView {
            start_pfn: self.start_pfn,
            total_pages: self.total_pages,
            available_pages: self.available_pages,
        }
    }
}

/// Pages counted for a region: its whole pages.
pub open spec fn region_pages(r: Region) -> int {
    r.len as int / 4096
}

/// The counters after `r` is pushed onto a zone: the first page frame is set
/// while the zone has no pages yet, and both page counts grow by the
/// region's whole pages.
pub open spec fn pushed(z: ZoneView, r: Region) -> ZoneView {
    ZoneView {
        start_pfn: if z.total_pages == 0 {
            (r.addr / 4096) as u64
        } else {
            z.start_pfn
        },
        total_pages: (z.total_pages + region_pages(r)) as u64,
        available_pages: (z.available_pages + region_pages(r)) as u64,
    }
}

/// A zone's counters leave room for a push of `r`.
pub open spec fn can_push(z: ZoneView, r: Region) -> bool {
    z.total_pages + region_pages(r) <= u64::MAX
}

impl Zone {
    /// No more pages are available than the zone spans, and the free lists
    /// are empty (nothing fills them yet).
    pub open spec fn wf(&self) -> bool {
        &&& self@.available_pages <= self@.total_pages
        &&& self.free_lists_empty()
    }

    /// The free lists are all empty.
    pub closed spec fn free_lists_empty(&self) -> bool {
        forall|k: int| 0 <= k < 10 ==> self.free_area@[k] is None
    }

    /// A zone with no pages.
    pub fn init() -> (r: Self)
        ensures
            r.wf(),
            r@ == (ZoneView { start_pfn: 0, total_pages: 0, available_pages: 0 }),
    {
        Zone { start_pfn: 0, total_pages: 0, available_pages: 0, free_area: [None; 10] }
    }

    /// The zone has received pages.
    pub fn is_initialized(&self) -> (r: bool)
        ensures
            r == (self@.total_pages != 0),
    {
        self.total_pages != 0
    }

    pub fn start_pfn(&self) -> (r: u64)
        ensures
            r == self@.start_pfn,
    {
        self.start_pfn
    }

    pub fn total_pages(&self) -> (r: u64)
        ensures
            r == self@.total_pages,
    {
        self.total_pages
    }

    pub fn available_pages(&self) -> (r: u64)
        ensures
            r == self@.available_pages,
    {
        self.available_pages
    }

    /// The head of the free list of order `k`.
    pub fn free_area_head(&self, k: usize) -> (r: Option<usize>)
        requires
            self.wf(),
            k < FREE_AREA_ORDERS,
        ensures
            r is None,
    {
        self.free_area[k]
    }

    /// Records the pages of `region` in the zone and returns the updated
    /// (total, available) page counts. The free lists are left as they are.
    pub fn push_region(&mut self, region: Region) -> (r: (u64, u64))
        requires
            old(self).wf(),
            can_push(old(self)@, region),
        ensures
            final(self).wf(),
            final(self)@ == pushed(old(self)@, region),
            r == (final(self)@.total_pages, final(self)@.available_pages),
    {
        let pages = region.len / PAGE_SIZE;
        if !self.is_initialized() {
            self.start_pfn = crate::addressing::pfn(region.addr);
        }
        self.total_pages = self.total_pages + pages;
        self.available_pages = self.available_pages + pages;
        (self.total_pages, self.available_pages)
    }
}

/// Position of a zone in address order.
pub open spec fn zone_rank(zt: zone_type) -> int {
    match zt {
        zone_type::ZoneDMA => 0,
        zone_type::ZoneDMA32 => 1,
        zone_type::ZoneHighMem => 2,
    }
}

/// The part of `r` that lies in zone `zt`, if any.
pub open spec fn zone_piece(r: Region, zt: zone_type) -> Option<Region> {
    let lo = if r.addr >= zone_first(zt) {
        r.addr as int
    } else {
        zone_first(zt)
    };
    let hi = if r.end() - 1 <= zone_last(zt) {
        r.end() - 1
    } else {
        zone_last(zt)
    };
    if r.len > 0 && lo <= hi {
        Some(Region { addr: lo as u64, len: (hi - lo + 1) as u64, mtype: r.mtype })
    } else {
        None
    }
}

/// The piece of `r` in `zt` as a list of zero or one push.
pub open spec fn piece_push(r: Region, zt: zone_type) -> Seq<(zone_type, Region)> {
    match zone_piece(r, zt) {
        Some(p) => seq![(zt, p)],
        None => Seq::empty(),
    }
}

/// The pushes that delivering `r` makes: its pieces in each zone, in address
/// order.
pub open spec fn zone_pieces(r: Region) -> Seq<(zone_type, Region)> {
    piece_push(r, zone_type::ZoneDMA) + piece_push(r, zone_type::ZoneDMA32) + piece_push(
        r,
        zone_type::ZoneHighMem,
    )
}

/// A zone's counters after it receives its piece of `r`, if it has one.
pub open spec fn after_delivery(z: ZoneView, r: Region, zt: zone_type) -> ZoneView {
    match zone_piece(r, zt) {
        Some(p) => pushed(z, p),
        None => z,
    }
}

/// The three zones, each behind its own lock.
pub struct Zones {
    dma: SpinLock<Zone>,
    dma32: SpinLock<Zone>,
    high_mem: SpinLock<Zone>,
}

fn push_locked(lock: &mut SpinLock<Zone>, region: Region) -> (r: (u64, u64))
    requires
        old(lock).wf(),
        !old(lock).is_locked(),
        old(lock).value().wf(),
        can_push(old(lock).value()@, region),
    ensures
        final(lock).wf(),
        !final(lock).is_locked(),
        final(lock).value().wf(),
        final(lock).value()@ == pushed(old(lock).value()@, region),
        r == (final(lock).value()@.total_pages, final(lock).value()@.available_pages),
{
    let mut guard: SpinLocked<Zone> = lock.borrow();
    let counts = guard.get_mut().push_region(region);
    lock.release(guard);
    counts
}

fn read_locked(lock: &mut SpinLock<Zone>) -> (r: (u64, u64, u64))
    requires
        old(lock).wf(),
        !old(lock).is_locked(),
        old(lock).value().wf(),
    ensures
        final(lock).wf(),
        !final(lock).is_locked(),
        final(lock).value() == old(lock).value(),
        r == (old(lock).value()@.start_pfn, old(lock).value()@.total_pages, old(
            lock,
        ).value()@.available_pages),
{
    let guard: SpinLocked<Zone> = lock.borrow();
    let z = guard.get();
    let r = (z.start_pfn(), z.total_pages(), z.available_pages());
    lock.release(guard);
    r
}

impl Zones {
    /// The lock of zone `zt`.
    pub closed spec fn lock(&self, zt: zone_type) -> SpinLock<Zone> {
        match zt {
            zone_type::ZoneDMA => self.dma,
            zone_type::ZoneDMA32 => self.dma32,
            zone_type::ZoneHighMem => self.high_mem,
        }
    }

    /// The counters of zone `zt`.
    pub open spec fn zone(&self, zt: zone_type) -> ZoneView {
        self.lock(zt).value()@
    }

    /// Between operations every lock is free and every zone well formed.
    pub open spec fn wf(&self) -> bool {
        forall|zt: zone_type|
            {
                &&& (#[trigger] self.lock(zt)).wf()
                &&& !self.lock(zt).is_locked()
                &&& self.lock(zt).value().wf()
            }
    }

    /// Three zones without pages.
    pub fn new() -> (r: Self)
        ensures
            r.wf(),
            forall|zt: zone_type|
                #[trigger] r.zone(zt) == (ZoneView { start_pfn: 0, total_pages: 0, available_pages: 0 }),
    {
        Zones {
            dma: SpinLock::new(Zone::init()),
            dma32: SpinLock::new(Zone::init()),
            high_mem: SpinLock::new(Zone::init()),
        }
    }

    /// The (first page frame, total pages, available pages) of zone `zt`,
    /// read under its lock.
    pub fn counters(&mut self, zt: zone_type) -> (r: (u64, u64, u64))
        requires
            old(self).wf(),
        ensures
            final(self).wf(),
            forall|z: zone_type| #[trigger] final(self).zone(z) == old(self).zone(z),
            r == (old(self).zone(zt).start_pfn, old(self).zone(zt).total_pages, old(self).zone(
                zt,
            ).available_pages),
    {
        proof {
            self.lemma_locks_free();
        }
        let r = match zt {
            zone_type::ZoneDMA => read_locked(&mut self.dma),
            zone_type::ZoneDMA32 => read_locked(&mut self.dma32),
            zone_type::ZoneHighMem => read_locked(&mut self.high_mem),
        };
        proof {
            self.lemma_wf_from_parts();
        }
        r
    }

    proof fn lemma_locks_free(&self)
        requires
            self.wf(),
        ensures
            self.dma.wf() && !self.dma.is_locked() && self.dma.value().wf(),
            self.dma32.wf() && !self.dma32.is_locked() && self.dma32.value().wf(),
            self.high_mem.wf() && !self.high_mem.is_locked() && self.high_mem.value().wf(),
    {
        assert(self.lock(zone_type::ZoneDMA).wf());
        assert(self.lock(zone_type::ZoneDMA32).wf());
        assert(self.lock(zone_type::ZoneHighMem).wf());
    }

    proof fn lemma_wf_from_parts(&self)
        requires
            self.dma.wf() && !self.dma.is_locked() && self.dma.value().wf(),
            self.dma32.wf() && !self.dma32.is_locked() && self.dma32.value().wf(),
            self.high_mem.wf() && !self.high_mem.is_locked() && self.high_mem.value().wf(),
        ensures
            self.wf(),
    {
        assert forall|zt: zone_type|
            {
                &&& (#[trigger] self.lock(zt)).wf()
                &&& !self.lock(zt).is_locked()
                &&& self.lock(zt).value().wf()
            } by {
            match zt {
                zone_type::ZoneDMA => {},
                zone_type::ZoneDMA32 => {},
                zone_type::ZoneHighMem => {},
            }
        }
    }

    /// Pushes `region` onto zone `zt` under that zone's lock.
    fn push(&mut self, zt: zone_type, region: Region) -> (r: (u64, u64))
        requires
            old(self).wf(),
            can_push(old(self).zone(zt), region),
        ensures
            final(self).wf(),
            final(self).zone(zt) == pushed(old(self).zone(zt), region),
            forall|z: zone_type| z != zt ==> #[trigger] final(self).zone(z) == old(self).zone(z),
            r == (final(self).zone(zt).total_pages, final(self).zone(zt).available_pages),
    {
        proof {
            self.lemma_locks_free();
        }
        let r = match zt {
            zone_type::ZoneDMA => push_locked(&mut self.dma, region),
            zone_type::ZoneDMA32 => push_locked(&mut self.dma32, region),
            zone_type::ZoneHighMem => push_locked(&mut self.high_mem, region),
        };
        proof {
            self.lemma_wf_from_parts();
        }
        r
    }
}

fn foster_into(zones: &mut Zones, region: Region, out: &mut Vec<(zone_type, Region)>)
    requires
        old(zones).wf(),
        region.in_address_space(),
        forall|zt: zone_type|
            (#[trigger] zone_piece(region, zt)) matches Some(p) ==> can_push(old(zones).zone(zt), p),
    ensures
        final(zones).wf(),
        final(out)@ == old(out)@ + zone_pieces(region),
        forall|zt: zone_type|
            #[trigger] final(zones).zone(zt) == after_delivery(old(zones).zone(zt), region, zt),
    decreases zone_rank(zone_of(region.end() - 1)) - zone_rank(zone_of(region.addr as int)),
{
    if region.len == 0 {
        assert(zone_pieces(region) =~= Seq::<(zone_type, Region)>::empty());
        return;
    }
    let start = region.addr;
    let end = region.addr + (region.len - 1);
    let zs = zone_type(start);
    let ze = zone_type(end);
    if zs != ze {
        let border = end_of_zone(zs);
        let left = Region { addr: start, len: border - start + 1, mtype: region.mtype };
        let right = Region { addr: border + 1, len: end - border, mtype: region.mtype };
        assert(zone_piece(region, zs) == Some(left));
        assert(forall|zt: zone_type| zt != zs ==> #[trigger] zone_piece(left, zt) is None);
        assert(zone_piece(right, zs) is None);
        assert(forall|zt: zone_type| zt != zs ==> #[trigger] zone_piece(right, zt) == zone_piece(region, zt));
        assert(zone_piece(left, zs) == Some(left));
        foster_into(zones, left, out);
        foster_into(zones, right, out);
        assert(zone_pieces(region) =~= zone_pieces(left) + zone_pieces(right));
    } else {
        assert(zone_piece(region, ze) == Some(region));
        assert(forall|zt: zone_type| zt != ze ==> #[trigger] zone_piece(region, zt) is None);
        zones.push(ze, region);
        out.push((ze, region));
        assert(zone_pieces(region) =~= seq![(ze, region)]);
    }
}

/// Delivers `region` to the zones: each part of it that lies in one zone is
/// pushed onto that zone, under the zone's lock. Returns the pushes made, as
/// (zone, piece), in address order; an empty region makes none.
pub fn foster_zone(zones: &mut Zones, region: Region) -> (r: Vec<(zone_type, Region)>)
    requires
        old(zones).wf(),
        region.in_address_space(),
        forall|zt: zone_type|
            (#[trigger] zone_piece(region, zt)) matches Some(p) ==> can_push(old(zones).zone(zt), p),
    ensures
        final(zones).wf(),
        r@ == zone_pieces(region),
        forall|zt: zone_type|
            #[trigger] final(zones).zone(zt) == after_delivery(old(zones).zone(zt), region, zt),
{
    let mut out: Vec<(zone_type, Region)> = Vec::new();
    foster_into(zones, region, &mut out);
    assert(out@ =~= zone_pieces(region));
    out
}

/// The pushes that delivering each region of `rs` in turn makes.
pub open spec fn pieces_of_all(rs: Seq<Region>) -> Seq<(zone_type, Region)>
    decreases rs.len(),
{
    if rs.len() == 0 {
        Seq::empty()
    } else {
        pieces_of_all(rs.drop_last()) + zone_pieces(rs.last())
    }
}

/// Zone `zt`'s counters after each region of `rs` is delivered in turn.
pub open spec fn delivered(z: ZoneView, rs: Seq<Region>, zt: zone_type) -> ZoneView
    decreases rs.len(),
{
    if rs.len() == 0 {
        z
    } else {
        after_delivery(delivered(z, rs.drop_last(), zt), rs.last(), zt)
    }
}

proof fn lemma_page_bound(len: int, total: int)
    requires
        len >= 0,
        total >= 0,
    ensures
        (total + len / 4096) * 4096 <= total * 4096 + len,
{
    assert((len / 4096) * 4096 <= len) by (nonlinear_arith)
        requires
            len >= 0,
    ;
    assert((total + len / 4096) * 4096 == total * 4096 + (len / 4096) * 4096) by (nonlinear_arith);
}

/// Delivers every usable region of `regions`, in address order, to the zones
/// (see `foster_zone`). Returns all pushes made, in order. The zones' page
/// counts, in bytes, together with the regions' total must fit in 64 bits.
pub fn populate_zones(zones: &mut Zones, regions: &MemoryRegion) -> (r: Vec<(zone_type, Region)>)
    requires
        old(zones).wf(),
        regions.wf(),
        forall|zt: zone_type|
            (#[trigger] old(zones).zone(zt)).total_pages * 4096 + regions.total() <= u64::MAX,
    ensures
        final(zones).wf(),
        r@ == pieces_of_all(usable_of(regions.slots())),
        forall|zt: zone_type|
            #[trigger] final(zones).zone(zt) == delivered(
                old(zones).zone(zt),
                usable_of(regions.slots()),
                zt,
            ),
{
    let ghost u = usable_of(regions.slots());
    proof {
        lemma_sum_len_usable(regions.slots());
    }
    let mut out: Vec<(zone_type, Region)> = Vec::new();
    let mut it = regions.iter_usable();
    let ghost mut k: int = 0;
    assert(u.take(0) =~= Seq::<Region>::empty());
    assert(u.skip(0) =~= u);
    loop
        invariant
            it.wf(),
            it.source() == regions@,
            u == usable_of(regions.slots()),
            0 <= k <= u.len(),
            it.remaining() == u.skip(k),
            zones.wf(),
            out@ == pieces_of_all(u.take(k)),
            forall|zt: zone_type|
                #[trigger] zones.zone(zt) == delivered(old(zones).zone(zt), u.take(k), zt),
            forall|zt: zone_type|
                (#[trigger] zones.zone(zt)).total_pages * 4096 <= old(zones).zone(zt).total_pages
                    * 4096 + sum_len(u.take(k)),
            sum_len(u) <= regions.total(),
            sum_len(u.take(k)) + sum_len(u.skip(k)) == sum_len(u),
            forall|zt: zone_type|
                (#[trigger] old(zones).zone(zt)).total_pages * 4096 + regions.total() <= u64::MAX,
            forall|j: int| 0 <= j < regions.slots().len() ==> (#[trigger] regions.slots()[j]).wf(),
        ensures
            k == u.len(),
        decreases u.len() - k,
    {
        let next = it.next();
        let region = match next {
            None => {
                break;
            },
            Some(region) => region,
        };
        assert(k < u.len());
        assert(region == u[k]);
        assert(u.skip(k).drop_first() =~= u.skip(k + 1));
        assert(u.take(k + 1).drop_last() =~= u.take(k));
        proof {
            crate::region::lemma_usable_of(regions.slots());
            assert(regions.slots().contains(usable_of(regions.slots())[k]));
            crate::region::lemma_sum_len_first(u.skip(k));
            crate::region::lemma_sum_len_nonneg(u.skip(k + 1));
            assert(sum_len(u.take(k + 1)) == sum_len(u.take(k)) + region.len);
            assert(u.skip(k)[0] == region);
        }
        assert(region.wf());
        let ghost before = *zones;
        proof {
            assert forall|zt: zone_type|
                (#[trigger] zone_piece(region, zt)) is Some implies can_push(
                    zones.zone(zt),
                    zone_piece(region, zt).unwrap(),
                ) by {
                if let Some(p) = zone_piece(region, zt) {
                    lemma_page_bound(p.len as int, zones.zone(zt).total_pages as int);
                    assert(p.len <= region.len);
                }
            }
        }
        let mut pushes = foster_zone(zones, region);
        proof {
            assert forall|zt: zone_type|
                (#[trigger] zones.zone(zt)).total_pages * 4096 <= old(zones).zone(zt).total_pages
                    * 4096 + sum_len(u.take(k + 1)) by {
                if let Some(p) = zone_piece(region, zt) {
                    lemma_page_bound(p.len as int, before.zone(zt).total_pages as int);
                    assert(p.len <= region.len);
                }
            }
        }
        out.append(&mut pushes);
        proof {
            k = k + 1;
        }
    }
    assert(u.take(k) =~= u);
    out
}

/// Sum of the lengths of the pieces.
pub open spec fn pieces_len(ps: Seq<(zone_type, Region)>) -> int
    decreases ps.len(),
{
    if ps.len() == 0 {
        0
    } else {
        pieces_len(ps.drop_last()) + ps.last().1.len
    }
}

/// Zone split correctness: the pieces of a region lie each within its own
/// zone, in ascending address order, with the region's kind, and their
/// lengths add up to the region's length.
pub proof fn lemma_zone_pieces(r: Region)
    requires
        r.in_address_space(),
    ensures
        pieces_len(zone_pieces(r)) == r.len,
        forall|i: int|
            0 <= i < zone_pieces(r).len() ==> {
                let (zt, p) = #[trigger] zone_pieces(r)[i];
                &&& zone_first(zt) <= p.addr
                &&& p.end() - 1 <= zone_last(zt)
                &&& p.len > 0
                &&& p.mtype == r.mtype
                &&& r.addr <= p.addr
                &&& p.end() <= r.end()
            },
        forall|i: int, j: int|
            0 <= i < j < zone_pieces(r).len() ==> (#[trigger] zone_pieces(r)[i]).1.end()
                <= (#[trigger] zone_pieces(r)[j]).1.addr,
{
    let a = piece_push(r, zone_type::ZoneDMA);
    let b = piece_push(r, zone_type::ZoneDMA32);
    let c = piece_push(r, zone_type::ZoneHighMem);
    let ps = zone_pieces(r);
    assert(ps =~= a + b + c);
    lemma_pieces_len_concat(a + b, c);
    lemma_pieces_len_concat(a, b);
    lemma_pieces_len_one(r, zone_type::ZoneDMA);
    lemma_pieces_len_one(r, zone_type::ZoneDMA32);
    lemma_pieces_len_one(r, zone_type::ZoneHighMem);
}

proof fn lemma_pieces_len_one(r: Region, zt: zone_type)
    ensures
        pieces_len(piece_push(r, zt)) == match zone_piece(r, zt) {
            Some(p) => p.len as int,
            None => 0,
        },
{
    let s = piece_push(r, zt);
    match zone_piece(r, zt) {
        Some(p) => {
            assert(s =~= seq![(zt, p)]);
            assert(s.drop_last() =~= Seq::<(zone_type, Region)>::empty());
            assert(pieces_len(s) == pieces_len(s.drop_last()) + s.last().1.len);
        },
        None => {
            assert(s.len() == 0);
        },
    }
}

proof fn lemma_pieces_len_concat(x: Seq<(zone_type, Region)>, y: Seq<(zone_type, Region)>)
    ensures
        pieces_len(x + y) == pieces_len(x) + pieces_len(y),
    decreases y.len(),
{
    if y.len() == 0 {
        assert(x + y =~= x);
    } else {
        lemma_pieces_len_concat(x, y.drop_last());
        assert((x + y).drop_last() =~= x + y.drop_last());
    }
}

} // verus!
