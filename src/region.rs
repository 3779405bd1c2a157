use vstd::prelude::*;

verus! {

/// Number of slots of a `MemoryRegion`.
pub const REGION_CAPACITY: usize = 64;

/// How a span of physical memory is used.
#[derive(Clone, Copy, PartialEq, Eq, Structural, Debug)]
pub enum RegionType {
    /// Unused memory, can be freely used by the kernel.
    Usable,
    /// Memory that is already in use.
    InUse,
    /// Memory reserved by the hardware. Not usable.
    Reserved,
    /// ACPI reclaimable memory
    AcpiReclaimable,
    /// ACPI NVS memory
    AcpiNvs,
    /// Area containing bad memory
    BadMemory,
    /// Memory used for loading the kernel.
    Kernel,
    /// Memory used for the kernel stack.
    KernelStack,
    /// Memory used for creating page tables.
    PageTable,
    /// Memory used by the bootloader.
    Bootloader,
    /// Frame at address zero.
    FrameZero,
    /// An empty region with size 0
    Empty,
    /// Memory used for storing the boot information.
    BootInfo,
    /// Memory used for storing the supplied package
    Package,
    /// Room for kinds added later.
    NonExhaustive,
}

/// One contiguous span of physical memory with a single usage.
#[derive(Clone, Copy, PartialEq, Eq, Structural, Debug)]
pub struct Region {
    pub addr: u64,
    pub len: u64,
    pub mtype: RegionType,
}

/// The kinds that the zone allocator may take.
pub open spec fn is_usable(t: RegionType) -> bool {
    t == RegionType::Usable || t == RegionType::AcpiReclaimable
}

impl Region {
    /// The first address past the region.
    pub open spec fn end(self) -> int {
        self.addr + self.len
    }

    /// The region's end is representable as a 64-bit address.
    pub open spec fn wf(self) -> bool {
        self.end() <= u64::MAX
    }

    /// The region lies inside the 64-bit address space: its last byte, if
    /// any, is at most `u64::MAX`.
    pub open spec fn in_address_space(self) -> bool {
        self.end() <= u64::MAX + 1
    }

    /// An empty usable region at address zero.
    pub fn new() -> (r: Self)
        ensures
            r == (Region { addr: 0, len: 0, mtype: RegionType::Usable }),
    {
        Region { addr: 0, len: 0, mtype: RegionType::Usable }
    }

    /// The first address past the region.
    pub fn next_addr(&self) -> (r: u64)
        requires
            self.wf(),
        ensures
            r == self.end(),
    {
        self.addr + self.len
    }
}

/// `d` continues `slot` directly and has the same kind.
pub open spec fn mergeable(slot: Region, d: Region) -> bool {
    slot.end() == d.addr && slot.mtype == d.mtype
}

/// The union of `slot` and a region `d` that continues it.
pub open spec fn merged(slot: Region, d: Region) -> Region {
    Region { addr: slot.addr, len: (slot.len + d.len) as u64, mtype: d.mtype }
}

/// The first index at or after `i` whose slot starts above `addr`, or the length.
pub open spec fn first_above_from(s: Seq<Region>, addr: u64, i: int) -> int
    decreases s.len() - i,
{
    if i < 0 || i >= s.len() {
        s.len() as int
    } else if s[i].addr > addr {
        i
    } else {
        first_above_from(s, addr, i + 1)
    }
}

/// The first slot whose address exceeds `addr`: where a region at `addr` goes.
pub open spec fn insertion_point(s: Seq<Region>, addr: u64) -> int {
    first_above_from(s, addr, 0)
}

/// The live slots after `d` is added to `s`: sorted insertion, with a merge
/// attempted against the slot found (or, past the end, against the last slot).
/// A slot found starts above `d`, so it cannot end where `d` starts: only the
/// merge against the last slot ever applies (`lemma_found_slot_never_merges`).
pub open spec fn slots_after_add(s: Seq<Region>, d: Region) -> Seq<Region> {
    let i = insertion_point(s, d.addr);
    if i < s.len() {
        if mergeable(s[i], d) {
            s.update(i, merged(s[i], d))
        } else {
            s.insert(i, d)
        }
    } else if s.len() > 0 && mergeable(s.last(), d) {
        s.update(s.len() - 1, merged(s.last(), d))
    } else {
        s.push(d)
    }
}

/// Adding `d` to `s` takes a new slot.
pub open spec fn add_needs_slot(s: Seq<Region>, d: Region) -> bool {
    slots_after_add(s, d).len() > s.len()
}

/// Sum of the lengths of the slots.
pub open spec fn sum_len(s: Seq<Region>) -> int
    decreases s.len(),
{
    if s.len() == 0 {
        0
    } else {
        sum_len(s.drop_last()) + s.last().len
    }
}

/// Slots in ascending (not necessarily strictly) address order.
pub open spec fn sorted(s: Seq<Region>) -> bool {
    forall|j: int, k: int| 0 <= j < k < s.len() ==> s[j].addr <= s[k].addr
}

/// Slots in strictly ascending address order.
pub open spec fn strictly_sorted(s: Seq<Region>) -> bool {
    forall|j: int, k: int| 0 <= j < k < s.len() ==> s[j].addr < s[k].addr
}

/// The usable slots of `s`, in their order.
pub open spec fn usable_of(s: Seq<Region>) -> Seq<Region>
    decreases s.len(),
{
    if s.len() == 0 {
        Seq::empty()
    } else if is_usable(s[0].mtype) {
        seq![s[0]].add(usable_of(s.drop_first()))
    } else {
        usable_of(s.drop_first())
    }
}

/// Why a region could not be added.
#[derive(Clone, Copy, PartialEq, Eq, Structural, Debug)]
pub enum RegionError {
    /// All slots are taken and the region merges with none.
    RegionOverflow,
    /// The region's end, or the running total of lengths, exceeds 64 bits.
    SizeOverflow,
}

/// A bounded, address-sorted, self-merging list of physical memory regions.
pub struct MemoryRegion {
    regions: Vec<Region>,
    total_size: u64,
    last_page: u64,
}

proof fn lemma_sum_len_push(s: Seq<Region>, d: Region)
    ensures
        sum_len(s.push(d)) == sum_len(s) + d.len,
{
    assert(s.push(d).drop_last() =~= s);
}

proof fn lemma_sum_len_insert(s: Seq<Region>, i: int, d: Region)
    requires
        0 <= i <= s.len(),
    ensures
        sum_len(s.insert(i, d)) == sum_len(s) + d.len,
    decreases s.len(),
{
    if i == s.len() {
        assert(s.insert(i, d) =~= s.push(d));
        lemma_sum_len_push(s, d);
    } else {
        lemma_sum_len_insert(s.drop_last(), i, d);
        assert(s.insert(i, d).drop_last() =~= s.drop_last().insert(i, d));
    }
}

proof fn lemma_sum_len_update(s: Seq<Region>, i: int, x: Region)
    requires
        0 <= i < s.len(),
    ensures
        sum_len(s.update(i, x)) == sum_len(s) - s[i].len + x.len,
    decreases s.len(),
{
    if i == s.len() - 1 {
        assert(s.update(i, x).drop_last() =~= s.drop_last());
    } else {
        lemma_sum_len_update(s.drop_last(), i, x);
        assert(s.update(i, x).drop_last() =~= s.drop_last().update(i, x));
    }
}

proof fn lemma_insertion_point(s: Seq<Region>, addr: u64, i: int)
    requires
        0 <= i <= s.len(),
        forall|j: int| 0 <= j < i ==> s[j].addr <= addr,
    ensures
        insertion_point(s, addr) == first_above_from(s, addr, i),
    decreases i,
{
    if i > 0 {
        lemma_insertion_point(s, addr, i - 1);
    }
}

proof fn lemma_first_above_bounds(s: Seq<Region>, addr: u64, i: int)
    requires
        0 <= i <= s.len(),
    ensures
        i <= first_above_from(s, addr, i) <= s.len(),
        forall|j: int| i <= j < first_above_from(s, addr, i) ==> s[j].addr <= addr,
        first_above_from(s, addr, i) < s.len() ==> s[first_above_from(s, addr, i)].addr > addr,
    decreases s.len() - i,
{
    if i < s.len() && s[i].addr <= addr {
        lemma_first_above_bounds(s, addr, i + 1);
    }
}

/// Where a region at `addr` goes: every slot before it starts at or below
/// `addr`, the slot there (if any) above it.
pub proof fn lemma_insertion_point_bounds(s: Seq<Region>, addr: u64)
    ensures
        0 <= insertion_point(s, addr) <= s.len(),
        forall|j: int| 0 <= j < insertion_point(s, addr) ==> s[j].addr <= addr,
        insertion_point(s, addr) < s.len() ==> s[insertion_point(s, addr)].addr > addr,
{
    lemma_first_above_bounds(s, addr, 0);
}

/// What a `MemoryRegion` holds: its live slots, the running total of
/// lengths, and the highest end address seen.
pub ghost struct MemoryRegionView {
    pub slots: Seq<Region>,
    pub total: u64,
    pub last: u64,
}

/// The view of a new, empty `MemoryRegion`.
pub open spec fn empty_view() -> MemoryRegionView {
    MemoryRegionView { slots: Seq::empty(), total: 0, last: 0 }
}

/// Why adding `d` to `v` fails, if it does: the end of `d` or the new total
/// would not fit in 64 bits, or `d` needs a slot and all are taken.
pub open spec fn add_error(v: MemoryRegionView, d: Region) -> Option<RegionError> {
    if !d.wf() || v.total + d.len > u64::MAX {
        Some(RegionError::SizeOverflow)
    } else if add_needs_slot(v.slots, d) && v.slots.len() == REGION_CAPACITY {
        Some(RegionError::RegionOverflow)
    } else {
        None
    }
}

/// The state after adding `d` to `v`: unchanged on failure; otherwise the
/// slots after sorted insertion or merge, the total grown by `d.len`, and the
/// highest end address updated.
pub open spec fn view_after_add(v: MemoryRegionView, d: Region) -> MemoryRegionView {
    if add_error(v, d) is Some {
        v
    } else {
        MemoryRegionView {
            slots: slots_after_add(v.slots, d),
            total: (v.total + d.len) as u64,
            last: if d.end() > v.last {
                d.end() as u64
            } else {
                v.last
            },
        }
    }
}

/// The state after adding each region of `ds` in turn.
pub open spec fn view_after_adds(v: MemoryRegionView, ds: Seq<Region>) -> MemoryRegionView
    decreases ds.len(),
{
    if ds.len() == 0 {
        v
    } else {
        view_after_add(view_after_adds(v, ds.drop_last()), ds.last())
    }
}

/// Every add of `ds`, made in turn from `v`, succeeds.
pub open spec fn adds_succeed(v: MemoryRegionView, ds: Seq<Region>) -> bool
    decreases ds.len(),
{
    ds.len() == 0 || (adds_succeed(v, ds.drop_last()) && add_error(
        view_after_adds(v, ds.drop_last()),
        ds.last(),
    ) is None)
}

impl View for MemoryRegion {
    type V = MemoryRegionView;

    closed spec fn view(&self) -> MemoryRegionView {
        MemoryRegionView { slots: self.regions@, total: self.total_size, last: self.last_page }
    }
}

impl MemoryRegion {
    /// The live slots, in order.
    pub open spec fn slots(&self) -> Seq<Region> {
        self@.slots
    }

    /// Sum of the lengths of all regions added.
    pub open spec fn total(&self) -> u64 {
        self@.total
    }

    /// The highest end address of all regions added.
    pub open spec fn last(&self) -> u64 {
        self@.last
    }

    /// At most `REGION_CAPACITY` live slots, each with a representable end,
    /// ascending by address, whose lengths add up to the running total.
    pub open spec fn wf(&self) -> bool {
        &&& self.slots().len() <= REGION_CAPACITY
        &&& forall|j: int| 0 <= j < self.slots().len() ==> (#[trigger] self.slots()[j]).wf()
        &&& sorted(self.slots())
        &&& sum_len(self.slots()) == self.total()
    }

    /// An empty collection.
    pub fn new() -> (r: Self)
        ensures
            r.wf(),
            r.slots() == Seq::<Region>::empty(),
            r.total() == 0,
            r.last() == 0,
    {
        MemoryRegion { regions: Vec::new(), total_size: 0, last_page: 0 }
    }

    /// Number of live slots.
    pub fn len(&self) -> (r: usize)
        ensures
            r == self.slots().len(),
    {
        self.regions.len()
    }

    /// The live slot at `i`.
    pub fn get(&self, i: usize) -> (r: Region)
        requires
            i < self.slots().len(),
        ensures
            r == self.slots()[i as int],
    {
        self.regions[i]
    }

    /// Sum of the lengths of all regions added.
    pub fn total_size(&self) -> (r: u64)
        ensures
            r == self.total(),
    {
        self.total_size
    }

    /// The highest end address of all regions added.
    pub fn last_page(&self) -> (r: u64)
        ensures
            r == self.last(),
    {
        self.last_page
    }

    /// Available memory in whole MiB.
    pub fn available_mb(&self) -> (r: u64)
        ensures
            r == self.total() / 1048576,
    {
        self.total_size / 1024 / 1024
    }

    /// Available memory in whole pages.
    pub fn available_pages(&self) -> (r: u64)
        ensures
            r == self.total() / 4096,
    {
        self.total_size / crate::addressing::PAGE_SIZE
    }

    fn update_meta(&mut self, d: &Region)
        requires
            d.wf(),
            old(self).total() + d.len <= u64::MAX,
        ensures
            final(self).slots() == old(self).slots(),
            final(self).total() == old(self).total() + d.len,
            final(self).last() == if d.end() > old(self).last() {
                d.end() as u64
            } else {
                old(self).last()
            },
    {
        self.total_size = self.total_size + d.len;
        if d.next_addr() > self.last_page {
            self.last_page = d.next_addr();
        }
    }

    fn try_merge_at(&mut self, i: usize, d: Region) -> (r: Result<(), ()>)
        requires
            i < old(self).slots().len(),
            old(self).wf(),
            d.wf(),
        ensures
            r is Ok <==> mergeable(old(self).slots()[i as int], d),
            final(self).slots() == if r is Ok {
                old(self).slots().update(i as int, merged(old(self).slots()[i as int], d))
            } else {
                old(self).slots()
            },
            final(self).total() == old(self).total(),
            final(self).last() == old(self).last(),
    {
        let slot = self.regions[i];
        assert(self.slots()[i as int].wf());
        if slot.next_addr() == d.addr && slot.mtype == d.mtype {
            self.regions.set(i, Region { addr: slot.addr, len: slot.len + d.len, mtype: d.mtype });
            Ok(())
        } else {
            Err(())
        }
    }

    /// Adds `d`, keeping the slots sorted and merging `d` into an adjacent slot
    /// of the same kind where the scan finds one. Fails, leaving everything
    /// unchanged, when the end of `d` or the running total would not fit in 64
    /// bits, or when `d` needs a slot and all are taken.
    pub fn add(&mut self, d: Region) -> (r: Result<(), RegionError>)
        requires
            old(self).wf(),
        ensures
            final(self).wf(),
            r == match add_error(old(self)@, d) {
                Some(e) => Err(e),
                None => Ok(()),
            },
            final(self)@ == view_after_add(old(self)@, d),
    {
        let ghost s = self.slots();
        if d.addr > u64::MAX - d.len || self.total_size > u64::MAX - d.len {
            return Err(RegionError::SizeOverflow);
        }
        proof {
            lemma_insertion_point_bounds(s, d.addr);
        }
        let n = self.regions.len();
        let mut i: usize = 0;
        while i < n
            invariant
                0 <= i <= n,
                n == s.len(),
                self.slots() == s,
                self@ == old(self)@,
                self.wf(),
                d.wf(),
                self.total() + d.len <= u64::MAX,
                forall|j: int| 0 <= j < i ==> s[j].addr <= d.addr,
            decreases n - i,
        {
            if self.regions[i].addr > d.addr {
                proof {
                    lemma_insertion_point(s, d.addr, i as int);
                }
                assert(insertion_point(s, d.addr) == i);
                let ghost before = *self;
                if self.try_merge_at(i, d).is_err() {
                    if n == REGION_CAPACITY {
                        return Err(RegionError::RegionOverflow);
                    }
                    self.regions.insert(i, d);
                    proof {
                        lemma_sum_len_insert(s, i as int, d);
                    }
                } else {
                    proof {
                        lemma_sum_len_update(s, i as int, merged(s[i as int], d));
                    }
                }
                self.update_meta(&d);
                return Ok(());
            }
            i = i + 1;
        }
        proof {
            lemma_insertion_point(s, d.addr, n as int);
        }
        if n == 0 || self.try_merge_at(n - 1, d).is_err() {
            if n == REGION_CAPACITY {
                return Err(RegionError::RegionOverflow);
            }
            self.regions.push(d);
            proof {
                lemma_sum_len_push(s, d);
            }
        } else {
            proof {
                lemma_sum_len_update(s, n - 1, merged(s[n - 1], d));
            }
        }
        self.update_meta(&d);
        Ok(())
    }
}

/// A cursor over the usable slots of a `MemoryRegion`, in address order.
pub struct RegionIter<'a> {
    cursor: usize,
    memory_region: &'a MemoryRegion,
}

impl<'a> RegionIter<'a> {
    /// The region list walked.
    pub closed spec fn source(&self) -> MemoryRegionView {
        self.memory_region@
    }

    /// The usable regions not yet handed out, in order.
    pub closed spec fn remaining(&self) -> Seq<Region> {
        usable_of(self.memory_region@.slots.subrange(self.cursor as int, self.memory_region@.slots.len() as int))
    }

    pub closed spec fn wf(&self) -> bool {
        self.cursor <= self.memory_region@.slots.len()
    }

    /// Hands out the next usable region, or `None` when there is none left.
    pub fn next(&mut self) -> (r: Option<Region>)
        requires
            old(self).wf(),
        ensures
            final(self).wf(),
            final(self).source() == old(self).source(),
            old(self).remaining().len() == 0 ==> r is None && final(self).remaining() == old(self).remaining(),
            old(self).remaining().len() > 0 ==> r == Some(old(self).remaining()[0])
                && final(self).remaining() == old(self).remaining().drop_first(),
    {
        let n = self.memory_region.regions.len();
        let ghost s = self.memory_region@.slots;
        while self.cursor < n
            invariant
                self.cursor <= n,
                n == s.len(),
                s == self.memory_region@.slots,
                self.memory_region == old(self).memory_region,
                self.remaining() == old(self).remaining(),
            decreases n - self.cursor,
        {
            let result = self.memory_region.regions[self.cursor];
            assert(s.subrange(self.cursor as int, n as int).drop_first()
                =~= s.subrange(self.cursor + 1, n as int));
            self.cursor = self.cursor + 1;
            match result.mtype {
                RegionType::Usable | RegionType::AcpiReclaimable => {
                    return Some(result);
                },
                _ => {},
            }
        }
        assert(s.subrange(self.cursor as int, n as int) =~= Seq::<Region>::empty());
        None
    }
}

impl MemoryRegion {
    /// A fresh cursor over the usable slots (`Usable` and `AcpiReclaimable`),
    /// in address order; the region list itself is left as it is.
    pub fn iter_usable(&self) -> (r: RegionIter<'_>)
        ensures
            r.wf(),
            r.source() == self@,
            r.remaining() == usable_of(self.slots()),
    {
        let r = RegionIter { cursor: 0, memory_region: self };
        assert(self.slots().subrange(0, self.slots().len() as int) =~= self.slots());
        r
    }
}

/// Adding `d` to strictly ascending slots keeps them strictly ascending
/// unless `d` starts where a live slot starts and does not merge into it.
pub open spec fn keeps_strict_order(s: Seq<Region>, d: Region) -> bool {
    forall|j: int|
        0 <= j < s.len() && (#[trigger] s[j]).addr == d.addr ==> j == s.len() - 1 && mergeable(
            s[j],
            d,
        )
}

/// Sortedness: an add keeps the live slots strictly ascending by address,
/// given that `d` does not start where a live slot starts without merging
/// into it (those inputs put two slots at one address).
pub proof fn lemma_add_keeps_strict_order(s: Seq<Region>, d: Region)
    requires
        strictly_sorted(s),
        keeps_strict_order(s, d),
    ensures
        strictly_sorted(slots_after_add(s, d)),
{
    lemma_insertion_point_bounds(s, d.addr);
    let i = insertion_point(s, d.addr);
    let r = slots_after_add(s, d);
    if i < s.len() {
        if !mergeable(s[i], d) {
            assert forall|j: int, k: int| 0 <= j < k < r.len() implies r[j].addr < r[k].addr by {
                if i > 0 && j < i {
                    assert(s[j].addr <= s[i - 1].addr);
                    assert(s[i - 1].addr != d.addr);
                }
            }
        }
    } else if s.len() > 0 && mergeable(s.last(), d) {
    } else if s.len() > 0 {
        assert(s.last().addr != d.addr);
        assert forall|j: int, k: int| 0 <= j < k < r.len() implies r[j].addr < r[k].addr by {
            if k == s.len() && j < s.len() - 1 {
                assert(s[j].addr < s.last().addr);
            }
        }
    }
}

/// Sortedness over a sequence of adds: starting from an empty list, the live
/// slots stay strictly ascending as long as no region starts where a live slot
/// starts without merging into it.
pub proof fn lemma_adds_keep_strict_order(ds: Seq<Region>)
    requires
        forall|k: int|
            0 <= k < ds.len() ==> keeps_strict_order(
                view_after_adds(empty_view(), ds.take(k)).slots,
                #[trigger] ds[k],
            ),
    ensures
        strictly_sorted(view_after_adds(empty_view(), ds).slots),
    decreases ds.len(),
{
    if ds.len() > 0 {
        let p = ds.drop_last();
        assert forall|k: int| 0 <= k < p.len() implies keeps_strict_order(
            view_after_adds(empty_view(), p.take(k)).slots,
            #[trigger] p[k],
        ) by {
            assert(p.take(k) =~= ds.take(k));
            assert(p[k] == ds[k]);
        }
        lemma_adds_keep_strict_order(p);
        assert(ds.take(ds.len() - 1) =~= p);
        assert(keeps_strict_order(view_after_adds(empty_view(), p).slots, ds[ds.len() - 1]));
        let v = view_after_adds(empty_view(), p);
        if add_error(v, ds.last()) is None {
            lemma_add_keeps_strict_order(v.slots, ds.last());
        }
    }
}

/// Total conservation: after a sequence of adds that all succeed, starting
/// from an empty list, the running total is the sum of the lengths added.
pub proof fn lemma_total_conservation(ds: Seq<Region>)
    requires
        adds_succeed(empty_view(), ds),
    ensures
        view_after_adds(empty_view(), ds).total == sum_len(ds),
    decreases ds.len(),
{
    if ds.len() > 0 {
        lemma_total_conservation(ds.drop_last());
    }
}

/// Iteration filter: the usable view of `s` holds exactly its `Usable` and
/// `AcpiReclaimable` slots, each from `s`, and keeps `s`'s address order.
pub proof fn lemma_usable_of(s: Seq<Region>)
    ensures
        forall|k: int| 0 <= k < usable_of(s).len() ==> is_usable((#[trigger] usable_of(s)[k]).mtype),
        forall|k: int| 0 <= k < usable_of(s).len() ==> s.contains(#[trigger] usable_of(s)[k]),
        forall|j: int| 0 <= j < s.len() && is_usable((#[trigger] s[j]).mtype) ==> usable_of(s).contains(s[j]),
        sorted(s) ==> sorted(usable_of(s)),
        strictly_sorted(s) ==> strictly_sorted(usable_of(s)),
    decreases s.len(),
{
    if s.len() > 0 {
        let t = s.drop_first();
        lemma_usable_of(t);
        let u = usable_of(s);
        let ut = usable_of(t);
        assert forall|k: int| 0 <= k < u.len() implies s.contains(#[trigger] u[k]) by {
            if is_usable(s[0].mtype) {
                if k == 0 {
                    assert(s[0] == u[0]);
                } else {
                    assert(u[k] == ut[k - 1]);
                    assert(t.contains(ut[k - 1]));
                }
            } else {
                assert(t.contains(ut[k]));
            }
            let w = choose|w: int| 0 <= w < t.len() && t[w] == u[k];
            if !(is_usable(s[0].mtype) && k == 0) {
                assert(s[w + 1] == u[k]);
            }
        }
        assert forall|j: int| 0 <= j < s.len() && is_usable((#[trigger] s[j]).mtype) implies u.contains(s[j]) by {
            if j == 0 {
                assert(u[0] == s[0]);
            } else {
                assert(t[j - 1] == s[j]);
                assert(ut.contains(s[j]));
                let w = choose|w: int| 0 <= w < ut.len() && ut[w] == s[j];
                if is_usable(s[0].mtype) {
                    assert(u[w + 1] == s[j]);
                } else {
                    assert(u[w] == s[j]);
                }
            }
        }
        assert forall|k: int| 0 <= k < u.len() implies is_usable((#[trigger] u[k]).mtype) by {
            if is_usable(s[0].mtype) && k > 0 {
                assert(u[k] == ut[k - 1]);
            }
        }
        if sorted(s) {
            assert(sorted(t));
            if is_usable(s[0].mtype) {
                assert forall|j: int, k: int| 0 <= j < k < u.len() implies u[j].addr <= u[k].addr by {
                    if j == 0 {
                        assert(u[k] == ut[k - 1]);
                        assert(t.contains(ut[k - 1]));
                        let w = choose|w: int| 0 <= w < t.len() && t[w] == ut[k - 1];
                        assert(s[w + 1] == u[k]);
                    } else {
                        assert(u[j] == ut[j - 1]);
                        assert(u[k] == ut[k - 1]);
                    }
                }
            }
        }
        if strictly_sorted(s) {
            assert(strictly_sorted(t));
            if is_usable(s[0].mtype) {
                assert forall|j: int, k: int| 0 <= j < k < u.len() implies u[j].addr < u[k].addr by {
                    if j == 0 {
                        assert(u[k] == ut[k - 1]);
                        assert(t.contains(ut[k - 1]));
                        let w = choose|w: int| 0 <= w < t.len() && t[w] == ut[k - 1];
                        assert(s[w + 1] == u[k]);
                    } else {
                        assert(u[j] == ut[j - 1]);
                        assert(u[k] == ut[k - 1]);
                    }
                }
            }
        }
    }
}

pub(crate) proof fn lemma_sum_len_first(s: Seq<Region>)
    requires
        s.len() > 0,
    ensures
        sum_len(s) == s[0].len + sum_len(s.drop_first()),
    decreases s.len(),
{
    let d = s.drop_first();
    if s.len() > 1 {
        lemma_sum_len_first(s.drop_last());
        assert(d.drop_last() =~= s.drop_last().drop_first());
        assert(d.last() == s.last());
        assert(sum_len(d) == sum_len(d.drop_last()) + d.last().len);
        assert(s.drop_last()[0] == s[0]);
    } else {
        assert(d.len() == 0);
        assert(sum_len(d) == 0);
        assert(s.drop_last().len() == 0);
        assert(sum_len(s) == sum_len(s.drop_last()) + s.last().len);
    }
}

/// The usable slots' lengths add up to no more than all slots' lengths.
pub proof fn lemma_sum_len_usable(s: Seq<Region>)
    ensures
        sum_len(usable_of(s)) <= sum_len(s),
        sum_len(usable_of(s)) >= 0,
    decreases s.len(),
{
    if s.len() > 0 {
        lemma_sum_len_first(s);
        lemma_sum_len_usable(s.drop_first());
        if is_usable(s[0].mtype) {
            let u = usable_of(s);
            lemma_sum_len_first(u);
            assert(u.drop_first() =~= usable_of(s.drop_first()));
        }
    }
}

/// Lengths are never negative, so neither is their sum.
pub proof fn lemma_sum_len_nonneg(s: Seq<Region>)
    ensures
        sum_len(s) >= 0,
    decreases s.len(),
{
    if s.len() > 0 {
        lemma_sum_len_nonneg(s.drop_last());
    }
}

/// The slot at the insertion point starts above `d`, so `d` never merges
/// into it: a region is only ever merged onto the end of the last slot.
pub proof fn lemma_found_slot_never_merges(s: Seq<Region>, d: Region)
    ensures
        insertion_point(s, d.addr) < s.len() ==> !mergeable(s[insertion_point(s, d.addr)], d),
{
    lemma_insertion_point_bounds(s, d.addr);
}

} // verus!
