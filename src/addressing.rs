use vstd::prelude::*;

verus! {

/// log2 of the page size.
pub const PG_SHIFT: u64 = 12;

/// Size of a page in bytes.
pub const PAGE_SIZE: u64 = 4096;

/// Mask of the offset bits inside a page.
pub const PAGE_MASK: u64 = 4095;

/// Bits 47..64 of a virtual address; in canonical form they are all zero or all one.
pub const CANONICAL_MASK: u64 = 0xffff_8000_0000_0000;

/// A virtual address is canonical when its top 17 bits are a sign extension,
/// that is, all zero or all one.
pub open spec fn is_canonical(addr: u64) -> bool {
    addr < 0x8000_0000_0000 || addr >= 0xffff_8000_0000_0000
}

/// A physical address; any 64-bit value is one.
#[derive(Clone, Copy, PartialEq, Eq, PartialOrd, Ord, Debug)]
pub struct Physical(u64);

/// A virtual address in canonical form.
#[derive(Clone, Copy, PartialEq, Eq, PartialOrd, Ord, Debug)]
pub struct Virtual(u64);

impl View for Physical {
    type V = u64;

    closed spec fn view(&self) -> u64 {
        self.0
    }
}

impl View for Virtual {
    type V = u64;

    closed spec fn view(&self) -> u64 {
        self.0
    }
}

impl Physical {
    pub fn new(addr: u64) -> (r: Self)
        ensures
            r@ == addr,
    {
        Physical(addr)
    }

    pub fn to_u64(&self) -> (r: u64)
        ensures
            r == self@,
    {
        self.0
    }
}

impl Virtual {
    /// Well-formedness: the address held is canonical.
    pub open spec fn wf(&self) -> bool {
        is_canonical(self@)
    }

    /// Builds a virtual address; fails unless `addr` is canonical.
    pub fn new(addr: u64) -> (r: Result<Self, ()>)
        ensures
            r is Ok <==> is_canonical(addr),
            r matches Ok(v) ==> v@ == addr && v.wf(),
    {
        let top = addr & CANONICAL_MASK;
        proof {
            assert(top == 0 <==> addr < 0x8000_0000_0000) by (bit_vector)
                requires
                    top == addr & 0xffff_8000_0000_0000u64,
            ;
            assert(top == 0xffff_8000_0000_0000u64 <==> addr >= 0xffff_8000_0000_0000u64)
                by (bit_vector)
                requires
                    top == addr & 0xffff_8000_0000_0000u64,
            ;
        }
        if top == 0 || top == CANONICAL_MASK {
            Ok(Virtual(addr))
        } else {
            Err(())
        }
    }

    pub fn to_u64(&self) -> (r: u64)
        ensures
            r == self@,
    {
        self.0
    }
}

/// `n` rounded down to a multiple of the page size.
pub open spec fn round_down_page(n: int) -> int {
    n / 4096 * 4096
}

/// `n` rounded up to a multiple of the page size.
pub open spec fn round_up_page(n: int) -> int {
    (n + 4095) / 4096 * 4096
}

/// `addr` rounded down to the start of its page.
pub fn page_down(addr: u64) -> (r: u64)
    ensures
        r == round_down_page(addr as int),
        r % PAGE_SIZE == 0,
        r <= addr,
        addr - r < PAGE_SIZE,
{
    let r = addr - addr % PAGE_SIZE;
    assert(r == (addr as int) / 4096 * 4096) by (nonlinear_arith)
        requires
            r == addr - addr % 4096,
    ;
    r
}

/// `addr` rounded up to a page boundary.
pub fn page_up(addr: u64) -> (r: u64)
    requires
        addr + PAGE_MASK <= u64::MAX,
    ensures
        r == round_up_page(addr as int),
        r % PAGE_SIZE == 0,
        addr <= r,
        r - addr < PAGE_SIZE,
{
    page_down(addr + PAGE_MASK)
}

/// The page-frame number of a physical address.
pub fn pfn(addr: u64) -> (r: u64)
    ensures
        r == addr / PAGE_SIZE,
{
    addr / PAGE_SIZE
}

/// Why the early boot allocator cannot serve a request.
#[derive(Clone, Copy, PartialEq, Eq, Structural, Debug)]
pub enum AllocError {
    /// The cursor would leave the canonical virtual address space.
    OutOfMemory,
}

/// Where the cursor moves when `n` bytes are taken at `cursor`, if it can.
pub open spec fn advanced(cursor: u64, n: u64) -> Option<u64> {
    if n + 4095 <= u64::MAX && cursor + round_up_page(n as int) <= u64::MAX && is_canonical(
        (cursor + round_up_page(n as int)) as u64,
    ) {
        Some((cursor + round_up_page(n as int)) as u64)
    } else {
        None
    }
}

/// A bump-pointer allocator for the time before the zones are live: a
/// cursor that only moves up, by whole pages.
pub struct BootAllocator {
    next_free: Virtual,
}

impl BootAllocator {
    /// The cursor.
    pub closed spec fn cursor(&self) -> u64 {
        self.next_free@
    }

    pub closed spec fn wf(&self) -> bool {
        self.next_free.wf()
    }

    /// An allocator whose cursor is `image_end` rounded up to a page; fails
    /// when that is not a canonical address.
    pub fn new(image_end: u64) -> (r: Result<Self, AllocError>)
        ensures
            r is Ok <==> image_end + 4095 <= u64::MAX && is_canonical(
                round_up_page(image_end as int) as u64,
            ),
            r matches Ok(a) ==> a.wf() && a.cursor() == round_up_page(image_end as int),
    {
        if image_end > u64::MAX - PAGE_MASK {
            return Err(AllocError::OutOfMemory);
        }
        match Virtual::new(page_up(image_end)) {
            Ok(v) => Ok(BootAllocator { next_free: v }),
            Err(_) => Err(AllocError::OutOfMemory),
        }
    }

    /// The cursor as an address.
    pub fn next_free(&self) -> (r: Virtual)
        ensures
            r@ == self.cursor(),
    {
        self.next_free
    }

    /// Whether `n` bytes can be taken: the cursor, moved past them rounded
    /// up to whole pages, is still a canonical address.
    pub fn can_allocate(&self, n: u64) -> (r: bool)
        requires
            self.wf(),
        ensures
            r == (advanced(self.cursor(), n) is Some),
    {
        if n > u64::MAX - PAGE_MASK {
            return false;
        }
        let alloc_size = page_up(n);
        if self.next_free.to_u64() > u64::MAX - alloc_size {
            return false;
        }
        Virtual::new(self.next_free.to_u64() + alloc_size).is_ok()
    }

    /// Takes `n` bytes, rounded up to whole pages: returns the old cursor and
    /// moves the cursor past the block. Running out of address space is
    /// fatal at this stage, so the move must succeed (see `can_allocate`).
    pub fn allocate(&mut self, n: u64) -> (r: Virtual)
        requires
            old(self).wf(),
            advanced(old(self).cursor(), n) is Some,
        ensures
            final(self).wf(),
            r@ == old(self).cursor(),
            final(self).cursor() == advanced(old(self).cursor(), n).unwrap(),
    {
        let alloc_size = page_up(n);
        let current = self.next_free;
        match Virtual::new(current.to_u64() + alloc_size) {
            Ok(virt) => {
                self.next_free = virt;
            },
            Err(_) => {},
        }
        current
    }
}

} // verus!
