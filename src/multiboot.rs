use vstd::prelude::*;
use crate::bytes::{le_u32, read_u32_le};
use crate::region::{
    add_error, adds_succeed, empty_view, view_after_adds, MemoryRegion, Region, RegionError,
    RegionType,
};

verus! {

/// Size in bytes of one firmware memory-map entry.
pub const E820_ENTRY_SIZE: usize = 24;

/// Offset of `mmap_len` in the boot information block.
pub const MMAP_LEN_OFFSET: usize = 44;

/// Offset of `mmap_addr` in the boot information block.
pub const MMAP_ADDR_OFFSET: usize = 48;

/// The part of the boot information block that locates the memory map.
#[derive(Clone, Copy, PartialEq, Eq, Structural, Debug)]
pub struct MBInfo {
    /// Byte length of the memory map.
    pub mmap_len: u32,
    /// Physical address of the memory map.
    pub mmap_addr: u32,
}

impl MBInfo {
    /// Reads the memory map's length and address out of a boot information
    /// block; `None` when the block is too short to hold them.
    pub fn parse(info: &[u8]) -> (r: Option<MBInfo>)
        ensures
            r is Some <==> info@.len() >= MMAP_ADDR_OFFSET + 4,
            r matches Some(m) ==> m.mmap_len == le_u32(info@, MMAP_LEN_OFFSET as int) && m.mmap_addr
                == le_u32(info@, MMAP_ADDR_OFFSET as int),
    {
        if info.len() < MMAP_ADDR_OFFSET + 4 {
            return None;
        }
        Some(
            MBInfo {
                mmap_len: read_u32_le(info, MMAP_LEN_OFFSET),
                mmap_addr: read_u32_le(info, MMAP_ADDR_OFFSET),
            },
        )
    }

    /// Number of whole entries in a memory map of `mmap_len` bytes.
    pub fn entry_count(&self) -> (r: usize)
        ensures
            r == self.mmap_len / 24,
    {
        (self.mmap_len / 24) as usize
    }
}

/// One firmware memory-map record.
#[derive(Clone, Copy, PartialEq, Eq, Structural, Debug)]
pub struct E820Entry {
    pub size: u32,
    pub mem_lo: u32,
    pub mem_hi: u32,
    pub len_lo: u32,
    pub len_hi: u32,
    pub type_: u32,
}

/// The record at `off` in `b`: six little-endian 32-bit fields.
pub open spec fn entry_at(b: Seq<u8>, off: int) -> E820Entry {
    E820Entry {
        size: le_u32(b, off),
        mem_lo: le_u32(b, off + 4),
        mem_hi: le_u32(b, off + 8),
        len_lo: le_u32(b, off + 12),
        len_hi: le_u32(b, off + 16),
        type_: le_u32(b, off + 20),
    }
}

/// The kind a firmware type code stands for.
pub open spec fn region_type_of(code: u32) -> RegionType {
    if code == 1 {
        RegionType::Usable
    } else if code == 3 {
        RegionType::AcpiReclaimable
    } else if code == 4 {
        RegionType::AcpiNvs
    } else if code == 5 {
        RegionType::BadMemory
    } else {
        RegionType::Reserved
    }
}

/// The 64-bit value whose halves are `hi` and `lo`.
pub open spec fn join_u32(lo: u32, hi: u32) -> u64 {
    (lo + hi * 0x1_0000_0000) as u64
}

/// The region a record describes.
pub open spec fn region_of(e: E820Entry) -> Region {
    Region {
        addr: join_u32(e.mem_lo, e.mem_hi),
        len: join_u32(e.len_lo, e.len_hi),
        mtype: region_type_of(e.type_),
    }
}

/// The regions of the whole records in a memory map, in order.
pub open spec fn mmap_regions(b: Seq<u8>) -> Seq<Region> {
    Seq::new(b.len() / 24, |k: int| region_of(entry_at(b, 24 * k)))
}

fn join(lo: u32, hi: u32) -> (r: u64)
    ensures
        r == join_u32(lo, hi),
{
    lo as u64 + (hi as u64) * 0x1_0000_0000
}

impl E820Entry {
    /// Reads the record at `off`.
    pub fn parse(b: &[u8], off: usize) -> (r: E820Entry)
        requires
            off + 24 <= b@.len(),
        ensures
            r == entry_at(b@, off as int),
    {
        let n = b.len();
        assert(off + 24 <= n);
        E820Entry {
            size: read_u32_le(b, off),
            mem_lo: read_u32_le(b, off + 4),
            mem_hi: read_u32_le(b, off + 8),
            len_lo: read_u32_le(b, off + 12),
            len_hi: read_u32_le(b, off + 16),
            type_: read_u32_le(b, off + 20),
        }
    }
}

impl<'a> From<&'a E820Entry> for Region {
    fn from(mm: &'a E820Entry) -> (r: Region) {
        let mtype = if mm.type_ == 1 {
            RegionType::Usable
        } else if mm.type_ == 3 {
            RegionType::AcpiReclaimable
        } else if mm.type_ == 4 {
            RegionType::AcpiNvs
        } else if mm.type_ == 5 {
            RegionType::BadMemory
        } else {
            RegionType::Reserved
        };
        Region { addr: join(mm.mem_lo, mm.mem_hi), len: join(mm.len_lo, mm.len_hi), mtype }
    }
}

impl<'a> vstd::std_specs::convert::FromSpecImpl<&'a E820Entry> for Region {
    open spec fn obeys_from_spec() -> bool {
        true
    }

    open spec fn from_spec(mm: &'a E820Entry) -> Region {
        region_of(*mm)
    }
}

proof fn lemma_adds_succeed_prefix(v: crate::region::MemoryRegionView, ds: Seq<Region>, k: int)
    requires
        adds_succeed(v, ds),
        0 <= k <= ds.len(),
    ensures
        adds_succeed(v, ds.take(k)),
    decreases ds.len(),
{
    if k == ds.len() {
        assert(ds.take(k) =~= ds);
    } else {
        lemma_adds_succeed_prefix(v, ds.drop_last(), k);
        assert(ds.drop_last().take(k) =~= ds.take(k));
    }
}

/// Builds the region list from a firmware memory map: each whole record, in
/// order, is added. Fails with the error of the first add that fails.
pub fn init_from_mbinfo(mmap: &[u8]) -> (r: Result<MemoryRegion, RegionError>)
    ensures
        r is Ok <==> adds_succeed(empty_view(), mmap_regions(mmap@)),
        r matches Ok(m) ==> m.wf() && m@ == view_after_adds(empty_view(), mmap_regions(mmap@)),
        r matches Err(e) ==> exists|k: int|
            0 <= k < mmap_regions(mmap@).len() && adds_succeed(
                empty_view(),
                #[trigger] mmap_regions(mmap@).take(k),
            ) && add_error(
                view_after_adds(empty_view(), mmap_regions(mmap@).take(k)),
                mmap_regions(mmap@)[k],
            ) == Some(e),
{
    let ghost ds = mmap_regions(mmap@);
    let mut regions = MemoryRegion::new();
    let count = mmap.len() / E820_ENTRY_SIZE;
    let mut k: usize = 0;
    assert(ds.take(0) =~= Seq::<Region>::empty());
    while k < count
        invariant
            count == ds.len(),
            count * 24 <= mmap@.len(),
            k <= count,
            regions.wf(),
            adds_succeed(empty_view(), ds.take(k as int)),
            regions@ == view_after_adds(empty_view(), ds.take(k as int)),
            ds == mmap_regions(mmap@),
        decreases count - k,
    {
        assert(k * 24 + 24 <= count * 24);
        assert(mmap@.len() == mmap.len());
        let entry = E820Entry::parse(mmap, k * E820_ENTRY_SIZE);
        let d = Region::from(&entry);
        assert(d == ds[k as int]);
        assert(ds.take(k + 1).drop_last() =~= ds.take(k as int));
        let res = regions.add(d);
        if let Err(e) = res {
            proof {
                if adds_succeed(empty_view(), ds) {
                    lemma_adds_succeed_prefix(empty_view(), ds, k + 1);
                }
                assert(adds_succeed(empty_view(), ds.take(k as int)));
            }
            return Err(e);
        }
        k = k + 1;
    }
    assert(ds.take(count as int) =~= ds);
    Ok(regions)
}

} // verus!
