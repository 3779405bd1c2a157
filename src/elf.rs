use vstd::prelude::*;
use crate::bytes::{le_u16, le_u32, le_u64, read_u16_le, read_u32_le, read_u64_le};

verus! {

/// Word size of the file.
#[allow(non_camel_case_types, clippy::upper_case_acronyms)]
#[derive(Clone, Copy, PartialEq, Eq, Structural, Debug)]
pub enum EIClass {
    Bit32,
    Bit64,
}

impl EIClass {
    /// The value that stands for this variant in the file.
    pub open spec fn code(self) -> u8 {
        match self {
            EIClass::Bit32 => 0x1,
            EIClass::Bit64 => 0x2,
        }
    }

    /// The value that stands for this variant in the file.
    pub fn to_raw(self) -> (r: u8)
        ensures
            r == self.code(),
    {
        match self {
            EIClass::Bit32 => 0x1,
            EIClass::Bit64 => 0x2,
        }
    }

    /// The variant that `v` stands for; `None` for a value that names none.
    pub fn from_raw(v: u8) -> (r: Option<EIClass>)
        ensures
            r matches Some(e) ==> e.code() == v,
            r is None ==> forall|e: EIClass| #[trigger] e.code() != v,
    {
        if v == 0x1 {
            Some(EIClass::Bit32)
        } else if v == 0x2 {
            Some(EIClass::Bit64)
        } else {
            None
        }
    }
}

/// Byte order of the file.
#[allow(non_camel_case_types, clippy::upper_case_acronyms)]
#[derive(Clone, Copy, PartialEq, Eq, Structural, Debug)]
pub enum EIData {
    LEndian,
    BEndian,
}

impl EIData {
    /// The value that stands for this variant in the file.
    pub open spec fn code(self) -> u8 {
        match self {
            EIData::LEndian => 0x1,
            EIData::BEndian => 0x2,
        }
    }

    /// The value that stands for this variant in the file.
    pub fn to_raw(self) -> (r: u8)
        ensures
            r == self.code(),
    {
        match self {
            EIData::LEndian => 0x1,
            EIData::BEndian => 0x2,
        }
    }

    /// The variant that `v` stands for; `None` for a value that names none.
    pub fn from_raw(v: u8) -> (r: Option<EIData>)
        ensures
            r matches Some(e) ==> e.code() == v,
            r is None ==> forall|e: EIData| #[trigger] e.code() != v,
    {
        if v == 0x1 {
            Some(EIData::LEndian)
        } else if v == 0x2 {
            Some(EIData::BEndian)
        } else {
            None
        }
    }
}

/// Target operating system ABI.
#[allow(non_camel_case_types, clippy::upper_case_acronyms)]
#[derive(Clone, Copy, PartialEq, Eq, Structural, Debug)]
pub enum OSabi {
    SystemV,
    HPUX,
    NetBsd,
    Linux,
    GnuHurd,
    Solaris,
    AIX,
    IRIX,
    FreeBsd,
    Tru64,
    NovellModesto,
    OpenBSD,
    OpenVMS,
    NonStopKernel,
    AROS,
    FenixOS,
    CloudABI,
}

impl OSabi {
    /// The value that stands for this variant in the file.
    pub open spec fn code(self) -> u8 {
        match self {
            OSabi::SystemV => 0x0,
            OSabi::HPUX => 0x1,
            OSabi::NetBsd => 0x2,
            OSabi::Linux => 0x3,
            OSabi::GnuHurd => 0x4,
            OSabi::Solaris => 0x6,
            OSabi::AIX => 0x7,
            OSabi::IRIX => 0x8,
            OSabi::FreeBsd => 0x9,
            OSabi::Tru64 => 0xa,
            OSabi::NovellModesto => 0xb,
            OSabi::OpenBSD => 0xc,
            OSabi::OpenVMS => 0xd,
            OSabi::NonStopKernel => 0xe,
            OSabi::AROS => 0xf,
            OSabi::FenixOS => 0x10,
            OSabi::CloudABI => 0x11,
        }
    }

    /// The value that stands for this variant in the file.
    pub fn to_raw(self) -> (r: u8)
        ensures
            r == self.code(),
    {
        match self {
            OSabi::SystemV => 0x0,
            OSabi::HPUX => 0x1,
            OSabi::NetBsd => 0x2,
            OSabi::Linux => 0x3,
            OSabi::GnuHurd => 0x4,
            OSabi::Solaris => 0x6,
            OSabi::AIX => 0x7,
            OSabi::IRIX => 0x8,
            OSabi::FreeBsd => 0x9,
            OSabi::Tru64 => 0xa,
            OSabi::NovellModesto => 0xb,
            OSabi::OpenBSD => 0xc,
            OSabi::OpenVMS => 0xd,
            OSabi::NonStopKernel => 0xe,
            OSabi::AROS => 0xf,
            OSabi::FenixOS => 0x10,
            OSabi::CloudABI => 0x11,
        }
    }

    /// The variant that `v` stands for; `None` for a value that names none.
    pub fn from_raw(v: u8) -> (r: Option<OSabi>)
        ensures
            r matches Some(e) ==> e.code() == v,
            r is None ==> forall|e: OSabi| #[trigger] e.code() != v,
    {
        if v == 0x0 {
            Some(OSabi::SystemV)
        } else if v == 0x1 {
            Some(OSabi::HPUX)
        } else if v == 0x2 {
            Some(OSabi::NetBsd)
        } else if v == 0x3 {
            Some(OSabi::Linux)
        } else if v == 0x4 {
            Some(OSabi::GnuHurd)
        } else if v == 0x6 {
            Some(OSabi::Solaris)
        } else if v == 0x7 {
            Some(OSabi::AIX)
        } else if v == 0x8 {
            Some(OSabi::IRIX)
        } else if v == 0x9 {
            Some(OSabi::FreeBsd)
        } else if v == 0xa {
            Some(OSabi::Tru64)
        } else if v == 0xb {
            Some(OSabi::NovellModesto)
        } else if v == 0xc {
            Some(OSabi::OpenBSD)
        } else if v == 0xd {
            Some(OSabi::OpenVMS)
        } else if v == 0xe {
            Some(OSabi::NonStopKernel)
        } else if v == 0xf {
            Some(OSabi::AROS)
        } else if v == 0x10 {
            Some(OSabi::FenixOS)
        } else if v == 0x11 {
            Some(OSabi::CloudABI)
        } else {
            None
        }
    }
}

/// Object file type.
#[allow(non_camel_case_types, clippy::upper_case_acronyms)]
#[derive(Clone, Copy, PartialEq, Eq, Structural, Debug)]
pub enum EType {
    NONE,
    REL,
    EXEC,
    DYN,
    CORE,
    LOOS,
    HIOS,
    LOPROC,
    HIPROC,
}

impl EType {
    /// The value that stands for this variant in the file.
    pub open spec fn code(self) -> u16 {
        match self {
            EType::NONE => 0x0,
            EType::REL => 0x1,
            EType::EXEC => 0x2,
            EType::DYN => 0x3,
            EType::CORE => 0x4,
            EType::LOOS => 0xfe00,
            EType::HIOS => 0xfeff,
            EType::LOPROC => 0xff00,
            EType::HIPROC => 0xffff,
        }
    }

    /// The value that stands for this variant in the file.
    pub fn to_raw(self) -> (r: u16)
        ensures
            r == self.code(),
    {
        match self {
            EType::NONE => 0x0,
            EType::REL => 0x1,
            EType::EXEC => 0x2,
            EType::DYN => 0x3,
            EType::CORE => 0x4,
            EType::LOOS => 0xfe00,
            EType::HIOS => 0xfeff,
            EType::LOPROC => 0xff00,
            EType::HIPROC => 0xffff,
        }
    }

    /// The variant that `v` stands for; `None` for a value that names none.
    pub fn from_raw(v: u16) -> (r: Option<EType>)
        ensures
            r matches Some(e) ==> e.code() == v,
            r is None ==> forall|e: EType| #[trigger] e.code() != v,
    {
        if v == 0x0 {
            Some(EType::NONE)
        } else if v == 0x1 {
            Some(EType::REL)
        } else if v == 0x2 {
            Some(EType::EXEC)
        } else if v == 0x3 {
            Some(EType::DYN)
        } else if v == 0x4 {
            Some(EType::CORE)
        } else if v == 0xfe00 {
            Some(EType::LOOS)
        } else if v == 0xfeff {
            Some(EType::HIOS)
        } else if v == 0xff00 {
            Some(EType::LOPROC)
        } else if v == 0xffff {
            Some(EType::HIPROC)
        } else {
            None
        }
    }
}

/// Target instruction set.
#[allow(non_camel_case_types, clippy::upper_case_acronyms)]
#[derive(Clone, Copy, PartialEq, Eq, Structural, Debug)]
pub enum EMachine {
    SPARC,
    X86,
    MIPS,
    PowerPC,
    S390,
    ARM,
    SuperH,
    IA64,
    X8664,
    AArch64,
    RISCV,
}

impl EMachine {
    /// The value that stands for this variant in the file.
    pub open spec fn code(self) -> u16 {
        match self {
            EMachine::SPARC => 0x2,
            EMachine::X86 => 0x3,
            EMachine::MIPS => 0x8,
            EMachine::PowerPC => 0x14,
            EMachine::S390 => 0x16,
            EMachine::ARM => 0x28,
            EMachine::SuperH => 0x2a,
            EMachine::IA64 => 0x32,
            EMachine::X8664 => 0x3e,
            EMachine::AArch64 => 0xb7,
            EMachine::RISCV => 0xf3,
        }
    }

    /// The value that stands for this variant in the file.
    pub fn to_raw(self) -> (r: u16)
        ensures
            r == self.code(),
    {
        match self {
            EMachine::SPARC => 0x2,
            EMachine::X86 => 0x3,
            EMachine::MIPS => 0x8,
            EMachine::PowerPC => 0x14,
            EMachine::S390 => 0x16,
            EMachine::ARM => 0x28,
            EMachine::SuperH => 0x2a,
            EMachine::IA64 => 0x32,
            EMachine::X8664 => 0x3e,
            EMachine::AArch64 => 0xb7,
            EMachine::RISCV => 0xf3,
        }
    }

    /// The variant that `v` stands for; `None` for a value that names none.
    pub fn from_raw(v: u16) -> (r: Option<EMachine>)
        ensures
            r matches Some(e) ==> e.code() == v,
            r is None ==> forall|e: EMachine| #[trigger] e.code() != v,
    {
        if v == 0x2 {
            Some(EMachine::SPARC)
        } else if v == 0x3 {
            Some(EMachine::X86)
        } else if v == 0x8 {
            Some(EMachine::MIPS)
        } else if v == 0x14 {
            Some(EMachine::PowerPC)
        } else if v == 0x16 {
            Some(EMachine::S390)
        } else if v == 0x28 {
            Some(EMachine::ARM)
        } else if v == 0x2a {
            Some(EMachine::SuperH)
        } else if v == 0x32 {
            Some(EMachine::IA64)
        } else if v == 0x3e {
            Some(EMachine::X8664)
        } else if v == 0xb7 {
            Some(EMachine::AArch64)
        } else if v == 0xf3 {
            Some(EMachine::RISCV)
        } else {
            None
        }
    }
}

/// Program header (segment) type.
#[allow(non_camel_case_types, clippy::upper_case_acronyms)]
#[derive(Clone, Copy, PartialEq, Eq, Structural, Debug)]
pub enum PType {
    NULL,
    LOAD,
    DYNAMIC,
    INTERP,
    NOTE,
    SHLIB,
    PHDR,
    LOOS,
    HIOS,
    LOPROC,
    HIPROC,
}

impl PType {
    /// The value that stands for this variant in the file.
    pub open spec fn code(self) -> u32 {
        match self {
            PType::NULL => 0x0,
            PType::LOAD => 0x1,
            PType::DYNAMIC => 0x2,
            PType::INTERP => 0x3,
            PType::NOTE => 0x4,
            PType::SHLIB => 0x5,
            PType::PHDR => 0x6,
            PType::LOOS => 0x60000000,
            PType::HIOS => 0x6fffffff,
            PType::LOPROC => 0x70000000,
            PType::HIPROC => 0x7fffffff,
        }
    }

    /// The value that stands for this variant in the file.
    pub fn to_raw(self) -> (r: u32)
        ensures
            r == self.code(),
    {
        match self {
            PType::NULL => 0x0,
            PType::LOAD => 0x1,
            PType::DYNAMIC => 0x2,
            PType::INTERP => 0x3,
            PType::NOTE => 0x4,
            PType::SHLIB => 0x5,
            PType::PHDR => 0x6,
            PType::LOOS => 0x60000000,
            PType::HIOS => 0x6fffffff,
            PType::LOPROC => 0x70000000,
            PType::HIPROC => 0x7fffffff,
        }
    }

    /// The variant that `v` stands for; `None` for a value that names none.
    pub fn from_raw(v: u32) -> (r: Option<PType>)
        ensures
            r matches Some(e) ==> e.code() == v,
            r is None ==> forall|e: PType| #[trigger] e.code() != v,
    {
        if v == 0x0 {
            Some(PType::NULL)
        } else if v == 0x1 {
            Some(PType::LOAD)
        } else if v == 0x2 {
            Some(PType::DYNAMIC)
        } else if v == 0x3 {
            Some(PType::INTERP)
        } else if v == 0x4 {
            Some(PType::NOTE)
        } else if v == 0x5 {
            Some(PType::SHLIB)
        } else if v == 0x6 {
            Some(PType::PHDR)
        } else if v == 0x60000000 {
            Some(PType::LOOS)
        } else if v == 0x6fffffff {
            Some(PType::HIOS)
        } else if v == 0x70000000 {
            Some(PType::LOPROC)
        } else if v == 0x7fffffff {
            Some(PType::HIPROC)
        } else {
            None
        }
    }
}

/// Section header type.
#[allow(non_camel_case_types, clippy::upper_case_acronyms)]
#[derive(Clone, Copy, PartialEq, Eq, Structural, Debug)]
pub enum SHType {
    NULL,
    PROGBITS,
    SYMTAB,
    STRTAB,
    RELA,
    HASH,
    DYNAMIC,
    NOTE,
    NOBITS,
    REL,
    SHLIB,
    DYNSYM,
    INITARRAY,
    FINIARRAY,
    PREINITARRAY,
    GROUP,
    SYMTABSHNDX,
    NUM,
    LOOS,
}

impl SHType {
    /// The value that stands for this variant in the file.
    pub open spec fn code(self) -> u32 {
        match self {
            SHType::NULL => 0x0,
            SHType::PROGBITS => 0x1,
            SHType::SYMTAB => 0x2,
            SHType::STRTAB => 0x3,
            SHType::RELA => 0x4,
            SHType::HASH => 0x5,
            SHType::DYNAMIC => 0x6,
            SHType::NOTE => 0x7,
            SHType::NOBITS => 0x8,
            SHType::REL => 0x9,
            SHType::SHLIB => 0xa,
            SHType::DYNSYM => 0xb,
            SHType::INITARRAY => 0xe,
            SHType::FINIARRAY => 0xf,
            SHType::PREINITARRAY => 0x10,
            SHType::GROUP => 0x11,
            SHType::SYMTABSHNDX => 0x12,
            SHType::NUM => 0x13,
            SHType::LOOS => 0x60000000,
        }
    }

    /// The value that stands for this variant in the file.
    pub fn to_raw(self) -> (r: u32)
        ensures
            r == self.code(),
    {
        match self {
            SHType::NULL => 0x0,
            SHType::PROGBITS => 0x1,
            SHType::SYMTAB => 0x2,
            SHType::STRTAB => 0x3,
            SHType::RELA => 0x4,
            SHType::HASH => 0x5,
            SHType::DYNAMIC => 0x6,
            SHType::NOTE => 0x7,
            SHType::NOBITS => 0x8,
            SHType::REL => 0x9,
            SHType::SHLIB => 0xa,
            SHType::DYNSYM => 0xb,
            SHType::INITARRAY => 0xe,
            SHType::FINIARRAY => 0xf,
            SHType::PREINITARRAY => 0x10,
            SHType::GROUP => 0x11,
            SHType::SYMTABSHNDX => 0x12,
            SHType::NUM => 0x13,
            SHType::LOOS => 0x60000000,
        }
    }

    /// The variant that `v` stands for; `None` for a value that names none.
    pub fn from_raw(v: u32) -> (r: Option<SHType>)
        ensures
            r matches Some(e) ==> e.code() == v,
            r is None ==> forall|e: SHType| #[trigger] e.code() != v,
    {
        if v == 0x0 {
            Some(SHType::NULL)
        } else if v == 0x1 {
            Some(SHType::PROGBITS)
        } else if v == 0x2 {
            Some(SHType::SYMTAB)
        } else if v == 0x3 {
            Some(SHType::STRTAB)
        } else if v == 0x4 {
            Some(SHType::RELA)
        } else if v == 0x5 {
            Some(SHType::HASH)
        } else if v == 0x6 {
            Some(SHType::DYNAMIC)
        } else if v == 0x7 {
            Some(SHType::NOTE)
        } else if v == 0x8 {
            Some(SHType::NOBITS)
        } else if v == 0x9 {
            Some(SHType::REL)
        } else if v == 0xa {
            Some(SHType::SHLIB)
        } else if v == 0xb {
            Some(SHType::DYNSYM)
        } else if v == 0xe {
            Some(SHType::INITARRAY)
        } else if v == 0xf {
            Some(SHType::FINIARRAY)
        } else if v == 0x10 {
            Some(SHType::PREINITARRAY)
        } else if v == 0x11 {
            Some(SHType::GROUP)
        } else if v == 0x12 {
            Some(SHType::SYMTABSHNDX)
        } else if v == 0x13 {
            Some(SHType::NUM)
        } else if v == 0x60000000 {
            Some(SHType::LOOS)
        } else {
            None
        }
    }
}

/// `0x7F` followed by `ELF`, read as a little-endian 32-bit value.
pub const ELF_MAGIC: u32 = 0x464C457F;

/// Size in bytes of the 64-bit file header.
pub const EHDR_SIZE: usize = 64;

/// Size in bytes of a 64-bit program header.
pub const PHDR_SIZE: usize = 56;

/// Size in bytes of a 64-bit section header.
pub const SHDR_SIZE: usize = 64;

/// The 64-bit ELF file header.
#[derive(Clone, Copy, Debug)]
pub struct ELFHeader64 {
    /// 0x7F followed by ELF (45 4c 46) in ASCII.
    pub ei_magic: u32,
    /// 1 for the 32-bit format, 2 for the 64-bit one.
    pub ei_class: u8,
    /// 1 for little endian, 2 for big endian.
    pub ei_data: u8,
    /// 1 for the original and current version of ELF.
    pub ei_version: u8,
    /// The target operating system ABI.
    pub ei_osabi: u8,
    /// Further specifies the ABI version.
    pub ei_abiversion: u8,
    /// Unused.
    pub ei_pad: [u8; 7],
    /// Object file type.
    pub e_type: u16,
    /// Target instruction set architecture.
    pub e_machine: u16,
    /// 1 for the original version of ELF.
    pub e_version: u32,
    /// Address of the entry point.
    pub e_entry: u64,
    /// Offset of the program header table.
    pub e_phoff: u64,
    /// Offset of the section header table.
    pub e_shoff: u64,
    /// Architecture-dependent flags.
    pub e_flags: u32,
    /// Size of this header.
    pub e_ehsize: u16,
    /// Size of a program header table entry.
    pub e_phentsize: u16,
    /// Number of entries in the program header table.
    pub e_phnum: u16,
    /// Size of a section header table entry.
    pub e_shentsize: u16,
    /// Number of entries in the section header table.
    pub e_shnum: u16,
    /// Index of the section header that holds the section names.
    pub e_shstrndx: u16,
}

/// The 64-bit program header.
#[derive(Clone, Copy, PartialEq, Eq, Structural, Debug)]
pub struct ProgHeader64 {
    /// Type of the segment.
    pub p_type: u32,
    /// Segment-dependent flags.
    pub p_flags: u32,
    /// Offset of the segment in the file image.
    pub p_offset: u64,
    /// Virtual address of the segment in memory.
    pub p_vaddr: u64,
    /// Physical address of the segment, where relevant.
    pub p_paddr: u64,
    /// Size in bytes of the segment in the file image. May be 0.
    pub p_filesz: u64,
    /// Size in bytes of the segment in memory. May be 0.
    pub p_memsz: u64,
    /// Alignment: 0 and 1 for none, else a power of 2.
    pub p_align: u64,
}

/// The 64-bit section header.
#[derive(Clone, Copy, PartialEq, Eq, Structural, Debug)]
pub struct SectHeader64 {
    /// Offset of the section's name in the section-name string table.
    pub sh_name: u32,
    /// Type of the section.
    pub sh_type: u32,
    /// Attributes of the section.
    pub sh_flags: u64,
    /// Address of the section in memory, for sections that are loaded.
    pub sh_addr: u64,
    /// Offset of the section in the file image.
    pub sh_offset: u64,
    /// Size in bytes of the section in the file image. May be 0.
    pub sh_size: u64,
    /// Index of an associated section.
    pub sh_link: u32,
    /// Extra information about the section.
    pub sh_info: u32,
    /// Required alignment of the section.
    pub sh_addralign: u64,
    /// Size of each entry, for sections of fixed-size entries, else 0.
    pub sh_entsize: u64,
}

/// The file header at the start of `b`, field by field.
pub open spec fn ehdr_at(b: Seq<u8>, h: ELFHeader64) -> bool {
    &&& h.ei_magic == le_u32(b, 0)
    &&& h.ei_class == b[4]
    &&& h.ei_data == b[5]
    &&& h.ei_version == b[6]
    &&& h.ei_osabi == b[7]
    &&& h.ei_abiversion == b[8]
    &&& h.ei_pad@ == b.subrange(9, 16)
    &&& h.e_type == le_u16(b, 16)
    &&& h.e_machine == le_u16(b, 18)
    &&& h.e_version == le_u32(b, 20)
    &&& h.e_entry == le_u64(b, 24)
    &&& h.e_phoff == le_u64(b, 32)
    &&& h.e_shoff == le_u64(b, 40)
    &&& h.e_flags == le_u32(b, 48)
    &&& h.e_ehsize == le_u16(b, 52)
    &&& h.e_phentsize == le_u16(b, 54)
    &&& h.e_phnum == le_u16(b, 56)
    &&& h.e_shentsize == le_u16(b, 58)
    &&& h.e_shnum == le_u16(b, 60)
    &&& h.e_shstrndx == le_u16(b, 62)
}

/// The program header at `off` in `b`.
pub open spec fn phdr_at(b: Seq<u8>, off: int) -> ProgHeader64 {
    ProgHeader64 {
        p_type: le_u32(b, off),
        p_flags: le_u32(b, off + 4),
        p_offset: le_u64(b, off + 8),
        p_vaddr: le_u64(b, off + 16),
        p_paddr: le_u64(b, off + 24),
        p_filesz: le_u64(b, off + 32),
        p_memsz: le_u64(b, off + 40),
        p_align: le_u64(b, off + 48),
    }
}

/// The section header at `off` in `b`.
pub open spec fn shdr_at(b: Seq<u8>, off: int) -> SectHeader64 {
    SectHeader64 {
        sh_name: le_u32(b, off),
        sh_type: le_u32(b, off + 4),
        sh_flags: le_u64(b, off + 8),
        sh_addr: le_u64(b, off + 16),
        sh_offset: le_u64(b, off + 24),
        sh_size: le_u64(b, off + 32),
        sh_link: le_u32(b, off + 40),
        sh_info: le_u32(b, off + 44),
        sh_addralign: le_u64(b, off + 48),
        sh_entsize: le_u64(b, off + 56),
    }
}

impl ELFHeader64 {
    /// Reads the file header at the start of `b`; `None` when `b` is shorter
    /// than a header.
    pub fn parse(b: &[u8]) -> (r: Option<ELFHeader64>)
        ensures
            r is Some <==> b@.len() >= EHDR_SIZE,
            r matches Some(h) ==> ehdr_at(b@, h),
    {
        if b.len() < EHDR_SIZE {
            return None;
        }
        let pad: [u8; 7] = [b[9], b[10], b[11], b[12], b[13], b[14], b[15]];
        assert(pad@ =~= b@.subrange(9, 16));
        Some(
            ELFHeader64 {
                ei_magic: read_u32_le(b, 0),
                ei_class: b[4],
                ei_data: b[5],
                ei_version: b[6],
                ei_osabi: b[7],
                ei_abiversion: b[8],
                ei_pad: pad,
                e_type: read_u16_le(b, 16),
                e_machine: read_u16_le(b, 18),
                e_version: read_u32_le(b, 20),
                e_entry: read_u64_le(b, 24),
                e_phoff: read_u64_le(b, 32),
                e_shoff: read_u64_le(b, 40),
                e_flags: read_u32_le(b, 48),
                e_ehsize: read_u16_le(b, 52),
                e_phentsize: read_u16_le(b, 54),
                e_phnum: read_u16_le(b, 56),
                e_shentsize: read_u16_le(b, 58),
                e_shnum: read_u16_le(b, 60),
                e_shstrndx: read_u16_le(b, 62),
            },
        )
    }
}

impl ProgHeader64 {
    /// Reads the program header at `off`.
    pub fn parse(b: &[u8], off: usize) -> (r: ProgHeader64)
        requires
            off + PHDR_SIZE <= b@.len(),
        ensures
            r == phdr_at(b@, off as int),
    {
        let n = b.len();
        assert(off + 56 <= n);
        ProgHeader64 {
            p_type: read_u32_le(b, off),
            p_flags: read_u32_le(b, off + 4),
            p_offset: read_u64_le(b, off + 8),
            p_vaddr: read_u64_le(b, off + 16),
            p_paddr: read_u64_le(b, off + 24),
            p_filesz: read_u64_le(b, off + 32),
            p_memsz: read_u64_le(b, off + 40),
            p_align: read_u64_le(b, off + 48),
        }
    }
}

impl SectHeader64 {
    /// Reads the section header at `off`.
    pub fn parse(b: &[u8], off: usize) -> (r: SectHeader64)
        requires
            off + SHDR_SIZE <= b@.len(),
        ensures
            r == shdr_at(b@, off as int),
    {
        let n = b.len();
        assert(off + 64 <= n);
        SectHeader64 {
            sh_name: read_u32_le(b, off),
            sh_type: read_u32_le(b, off + 4),
            sh_flags: read_u64_le(b, off + 8),
            sh_addr: read_u64_le(b, off + 16),
            sh_offset: read_u64_le(b, off + 24),
            sh_size: read_u64_le(b, off + 32),
            sh_link: read_u32_le(b, off + 40),
            sh_info: read_u32_le(b, off + 44),
            sh_addralign: read_u64_le(b, off + 48),
            sh_entsize: read_u64_le(b, off + 56),
        }
    }
}

/// The image starts with a 64-bit header that carries the magic number, and
/// its program header table lies inside the image.
pub open spec fn is_loadable_image(b: Seq<u8>) -> bool {
    &&& b.len() >= EHDR_SIZE
    &&& le_u32(b, 0) == ELF_MAGIC
    &&& le_u64(b, 32) + le_u16(b, 56) * 56 <= b.len()
}

/// The program headers of image `b`, in table order.
pub open spec fn phdrs_of(b: Seq<u8>) -> Seq<ProgHeader64> {
    Seq::new(le_u16(b, 56) as nat, |k: int| phdr_at(b, le_u64(b, 32) + 56 * k))
}

/// A parsed ELF image: its file header and its program headers.
pub struct ELF {
    hdr: ELFHeader64,
    phdrs: Vec<ProgHeader64>,
}

/// A cursor over program headers.
pub struct PhdrIter<'a> {
    pub phdrs: &'a [ProgHeader64],
    pub cursor: u16,
    pub size: u16,
}

impl<'a> PhdrIter<'a> {
    /// The next program header, or `None` once `size` have been handed out.
    pub fn next(&mut self) -> (r: Option<ProgHeader64>)
        requires
            old(self).size <= old(self).phdrs@.len(),
        ensures
            final(self).phdrs == old(self).phdrs,
            final(self).size == old(self).size,
            old(self).cursor < old(self).size ==> r == Some(old(self).phdrs@[old(self).cursor as int])
                && final(self).cursor == old(self).cursor + 1,
            old(self).cursor >= old(self).size ==> r is None && final(self).cursor == old(self).cursor,
    {
        if self.size > self.cursor {
            let result = self.phdrs[self.cursor as usize];
            self.cursor = self.cursor + 1;
            return Some(result);
        }
        None
    }
}

impl ELF {
    /// One program header for each entry the file header counts.
    #[verifier::type_invariant]
    spec fn inv(&self) -> bool {
        self.phdrs@.len() == self.hdr.e_phnum
    }

    /// The file header.
    pub closed spec fn header(&self) -> ELFHeader64 {
        self.hdr
    }

    /// The program headers, in table order.
    pub closed spec fn program_headers(&self) -> Seq<ProgHeader64> {
        self.phdrs@
    }

    /// Reads an ELF image. Fails when the image is shorter than a header,
    /// when the magic number does not match, or when the program header
    /// table does not lie inside the image.
    pub fn new(inp: &[u8]) -> (r: Result<Self, ()>)
        ensures
            r is Ok <==> is_loadable_image(inp@),
            r matches Ok(e) ==> ehdr_at(inp@, e.header()) && e.program_headers() == phdrs_of(inp@),
    {
        let hdr = match ELFHeader64::parse(inp) {
            Some(h) => h,
            None => return Err(()),
        };
        if hdr.ei_magic != ELF_MAGIC {
            return Err(());
        }
        let len = inp.len() as u64;
        if hdr.e_phoff > len || (hdr.e_phnum as u64) * 56 > len - hdr.e_phoff {
            return Err(());
        }
        let ghost want = phdrs_of(inp@);
        let mut phdrs: Vec<ProgHeader64> = Vec::new();
        let mut k: u16 = 0;
        let n = inp.len();
        while k < hdr.e_phnum
            invariant
                n == inp@.len(),
                ehdr_at(inp@, hdr),
                hdr.e_phoff + hdr.e_phnum * 56 <= inp@.len(),
                k <= hdr.e_phnum,
                want == phdrs_of(inp@),
                phdrs@ == want.take(k as int),
            decreases hdr.e_phnum - k,
        {
            assert(hdr.e_phoff + k * 56 + 56 <= n);
            let off = hdr.e_phoff as usize + (k as usize) * PHDR_SIZE;
            let ph = ProgHeader64::parse(inp, off);
            assert(ph == want[k as int]);
            phdrs.push(ph);
            assert(want.take(k + 1) =~= want.take(k as int).push(ph));
            k = k + 1;
        }
        assert(want.take(k as int) =~= want);
        Ok(ELF { hdr, phdrs })
    }

    /// The entry point address.
    pub fn entry(&self) -> (r: u64)
        ensures
            r == self.header().e_entry,
    {
        self.hdr.e_entry
    }

    /// Number of program headers.
    pub fn phnum(&self) -> (r: u16)
        ensures
            r as int == self.program_headers().len(),
    {
        proof {
            use_type_invariant(self);
        }
        self.hdr.e_phnum
    }

    /// A cursor over the program headers, from the first.
    pub fn phdrs(&self) -> (r: PhdrIter<'_>)
        ensures
            r.phdrs@ == self.program_headers(),
            r.cursor == 0,
            r.size as int == self.program_headers().len(),
    {
        proof {
            use_type_invariant(self);
        }
        PhdrIter { phdrs: self.phdrs.as_slice(), cursor: 0, size: self.hdr.e_phnum }
    }
}

} // verus!
