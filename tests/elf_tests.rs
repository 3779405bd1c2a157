use rustos::boot::{loadable_segments, readseg, Disk};
use rustos::elf::{EMachine, EType, PType, SHType, SectHeader64, ELF, EIClass, OSabi};

fn phdr(p_type: u32, offset: u64, paddr: u64, filesz: u64) -> Vec<u8> {
    let mut b = Vec::new();
    b.extend_from_slice(&p_type.to_le_bytes());
    b.extend_from_slice(&5u32.to_le_bytes());
    for v in [offset, paddr, paddr, filesz, filesz, 0x1000] {
        b.extend_from_slice(&v.to_le_bytes());
    }
    b
}

fn image(phdrs: &[Vec<u8>], magic: u32) -> Vec<u8> {
    let mut b = vec![0u8; 64];
    b[0..4].copy_from_slice(&magic.to_le_bytes());
    b[4] = 2;
    b[5] = 1;
    b[6] = 1;
    b[16..18].copy_from_slice(&2u16.to_le_bytes());
    b[18..20].copy_from_slice(&0x3Eu16.to_le_bytes());
    b[24..32].copy_from_slice(&0x10_0000u64.to_le_bytes());
    b[32..40].copy_from_slice(&64u64.to_le_bytes());
    b[54..56].copy_from_slice(&56u16.to_le_bytes());
    b[56..58].copy_from_slice(&(phdrs.len() as u16).to_le_bytes());
    for p in phdrs {
        b.extend_from_slice(p);
    }
    b
}

#[test]
fn elf_header_and_program_headers() {
    let img = image(&[phdr(1, 0x1000, 0x10_0000, 0x2345), phdr(4, 0x200, 0, 0x20)], 0x464C457F);
    let elf = ELF::new(&img).unwrap();
    assert_eq!(elf.entry(), 0x10_0000);
    assert_eq!(elf.phnum(), 2);
    let mut it = elf.phdrs();
    let a = it.next().unwrap();
    assert_eq!((a.p_type, a.p_offset, a.p_paddr, a.p_filesz), (1, 0x1000, 0x10_0000, 0x2345));
    let b = it.next().unwrap();
    assert_eq!(b.p_type, 4);
    assert!(it.next().is_none());
}

#[test]
fn bad_magic_is_rejected() {
    let img = image(&[phdr(1, 0, 0, 0)], 0x464C4500);
    assert!(ELF::new(&img).is_err());
    assert!(ELF::new(&img[..40]).is_err());
}

#[test]
fn missing_program_headers_are_rejected() {
    let img = image(&[phdr(1, 0, 0, 0), phdr(1, 0, 0, 0)], 0x464C457F);
    assert!(ELF::new(&img[..img.len() - 1]).is_err());
    assert!(ELF::new(&img).is_ok());
}

#[test]
fn only_load_segments_are_loaded() {
    let img = image(
        &[phdr(6, 0x40, 0, 0x70), phdr(1, 0x1000, 0x10_0000, 0x500), phdr(4, 0, 0, 0), phdr(1, 0x2000, 0x20_0000, 0x10)],
        0x464C457F,
    );
    let elf = ELF::new(&img).unwrap();
    let segs = loadable_segments(&elf);
    assert_eq!(segs.len(), 2);
    assert_eq!(segs[0].p_paddr, 0x10_0000);
    assert_eq!(segs[1].p_paddr, 0x20_0000);
}

#[test]
fn readseg_sector_reads() {
    assert_eq!(readseg(0x20000, 0x1000, 0x400), (0..8).map(|k| (0x20000 + 512 * k, 2 + k)).collect::<Vec<_>>());
    assert_eq!(readseg(0x10_0100, 0x300, 0x1200), vec![(0x10_0000, 9), (0x10_0200, 10)]);
    assert_eq!(readseg(0x1000, 0, 0), Vec::<(u32, u32)>::new());
    assert_eq!(readseg(0x1001, 0, 0), vec![(0x1000, 0)]);
}

#[test]
fn disk_read_commands() {
    assert_eq!(
        Disk::read_commands(0x0A12_3456),
        vec![(0x1F2, 1), (0x1F3, 0x56), (0x1F4, 0x34), (0x1F5, 0x12), (0x1F6, 0xEA), (0x1F7, 0x20)]
    );
    assert_eq!(Disk::BLOCK_SIZE, 512);
}

#[test]
fn enum_codes_round_trip() {
    assert_eq!(PType::from_raw(1), Some(PType::LOAD));
    assert_eq!(PType::LOAD.to_raw(), 1);
    assert_eq!(PType::from_raw(7), None);
    assert_eq!(EMachine::from_raw(0x3E), Some(EMachine::X8664));
    assert_eq!(EType::EXEC.to_raw(), 2);
    assert_eq!(EType::from_raw(0xfeff), Some(EType::HIOS));
    assert_eq!(SHType::from_raw(0x12), Some(SHType::SYMTABSHNDX));
    assert_eq!(SHType::from_raw(0xc), None);
    assert_eq!(EIClass::from_raw(2), Some(EIClass::Bit64));
    assert_eq!(OSabi::from_raw(5), None);
    assert_eq!(OSabi::CloudABI.to_raw(), 17);
}

#[test]
fn section_header_parse() {
    let mut b = vec![0u8; 64];
    b[0..4].copy_from_slice(&7u32.to_le_bytes());
    b[4..8].copy_from_slice(&8u32.to_le_bytes());
    b[8..16].copy_from_slice(&3u64.to_le_bytes());
    b[56..64].copy_from_slice(&24u64.to_le_bytes());
    let s = SectHeader64::parse(&b, 0);
    assert_eq!((s.sh_name, s.sh_type, s.sh_flags, s.sh_entsize), (7, 8, 3, 24));
    assert_eq!(SHType::from_raw(s.sh_type), Some(SHType::NOBITS));
}
