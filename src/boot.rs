use vstd::prelude::*;
use crate::elf::{ProgHeader64, ELF};

verus! {

/// Where the bootloader puts the first page of the kernel image.
pub const KERN_ELF_BASE: u64 = 0x20000;

/// `p_type` of a segment that is loaded into memory.
pub const PT_LOAD: u32 = 1;

/// The boot disk, driven through its ATA command registers.
pub struct Disk;

impl Disk {
    /// Size in bytes of a sector.
    pub const BLOCK_SIZE: u32 = 512;

    /// The register writes that start a read of sector `sect` (28-bit LBA
    /// mode): one sector, the address bytes low to high with the drive and
    /// mode bits on the top one, then the read command.
    pub fn read_commands(sect: u32) -> (r: Vec<(u16, u8)>)
        ensures
            r@ == seq![
                (0x1F2u16, 1u8),
                (0x1F3u16, (sect % 256) as u8),
                (0x1F4u16, (sect / 256 % 256) as u8),
                (0x1F5u16, (sect / 65536 % 256) as u8),
                (0x1F6u16, ((sect / 16777216) as u8 | 0xE0u8) as u8),
                (0x1F7u16, 0x20u8),
            ],
    {
        let top: u8 = (sect / 16777216) as u8;
        let mut r: Vec<(u16, u8)> = Vec::new();
        r.push((0x1F2, 1));
        r.push((0x1F3, (sect % 256) as u8));
        r.push((0x1F4, (sect / 256 % 256) as u8));
        r.push((0x1F5, (sect / 65536 % 256) as u8));
        r.push((0x1F6, top | 0xE0));
        r.push((0x1F7, 0x20));
        assert(r@ =~= seq![
            (0x1F2u16, 1u8),
            (0x1F3u16, (sect % 256) as u8),
            (0x1F4u16, (sect / 256 % 256) as u8),
            (0x1F5u16, (sect / 65536 % 256) as u8),
            (0x1F6u16, ((sect / 16777216) as u8 | 0xE0u8) as u8),
            (0x1F7u16, 0x20u8),
        ]);
        r
    }
}

/// The sector reads that bring bytes `pa .. pa + count` of memory in from
/// the disk, the first sector being `offset / 512`: whole sectors, from `pa`
/// rounded down to a sector, as (memory address, sector number).
pub open spec fn sector_reads(pa: u32, count: u32, offset: u32) -> Seq<(u32, u32)> {
    let base = pa - pa % 512;
    let n = (pa + count - base + 511) / 512;
    Seq::new(n as nat, |k: int| ((base + 512 * k) as u32, (offset / 512 + k) as u32))
}

/// The sector reads for bytes `pa .. pa + count`, see `sector_reads`.
pub fn readseg(pa: u32, count: u32, offset: u32) -> (r: Vec<(u32, u32)>)
    requires
        pa + count <= u32::MAX,
    ensures
        r@ == sector_reads(pa, count, offset),
{
    let ghost want = sector_reads(pa, count, offset);
    let end: u64 = pa as u64 + count as u64;
    let mut addr: u64 = (pa - pa % Disk::BLOCK_SIZE) as u64;
    let mut sect: u32 = offset / Disk::BLOCK_SIZE;
    let mut out: Vec<(u32, u32)> = Vec::new();
    let ghost base = pa - pa % 512;
    while addr < end
        invariant
            base == pa - pa % 512,
            end == pa + count,
            end <= u32::MAX,
            want == sector_reads(pa, count, offset),
            addr == base + 512 * out@.len(),
            sect == offset / 512 + out@.len(),
            out@.len() <= want.len(),
            out@ == want.take(out@.len() as int),
            addr < end ==> out@.len() < want.len(),
            addr >= end ==> out@.len() == want.len(),
        decreases want.len() - out@.len(),
    {
        let ghost k = out@.len() as int;
        out.push((addr as u32, sect));
        assert(out@ =~= want.take(k + 1));
        addr = addr + Disk::BLOCK_SIZE as u64;
        sect = sect + 1;
    }
    assert(out@ =~= want);
    out
}

/// The program headers of segments that are loaded, in table order.
pub open spec fn load_segments(ps: Seq<ProgHeader64>) -> Seq<ProgHeader64>
    decreases ps.len(),
{
    if ps.len() == 0 {
        Seq::empty()
    } else if ps.last().p_type == PT_LOAD {
        load_segments(ps.drop_last()).push(ps.last())
    } else {
        load_segments(ps.drop_last())
    }
}

/// The segments of `elf` that are loaded into memory, in table order.
pub fn loadable_segments(elf: &ELF) -> (r: Vec<ProgHeader64>)
    ensures
        r@ == load_segments(elf.program_headers()),
{
    let mut it = elf.phdrs();
    let ghost ps = elf.program_headers();
    let mut out: Vec<ProgHeader64> = Vec::new();
    assert(ps.take(0) =~= Seq::<ProgHeader64>::empty());
    while it.cursor < it.size
        invariant
            it.phdrs@ == ps,
            it.size as int == ps.len(),
            it.cursor <= it.size,
            out@ == load_segments(ps.take(it.cursor as int)),
        decreases it.size - it.cursor,
    {
        let ghost c = it.cursor as int;
        let ph = it.next().unwrap();
        assert(ps.take(c + 1).drop_last() =~= ps.take(c));
        if ph.p_type == PT_LOAD {
            out.push(ph);
        }
    }
    assert(ps.take(it.cursor as int) =~= ps);
    out
}

} // verus!
