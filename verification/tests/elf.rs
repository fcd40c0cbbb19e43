use rvr::config::Xlen;
use rvr::elf::defs::{ElfError, LoadedSection, PF_R, PF_W, PF_X, SHF_EXECINSTR};
use rvr::elf::file::{get_elf_xlen, is_git_lfs_pointer, ElfFile};
use rvr::elf::image::{ElfImage, MemorySegment};

#[test]
fn test_get_elf_xlen_32() {
    let data = [0x7F, 0x45, 0x4C, 0x46, 0x01, 0x01, 0x01, 0x00];
    assert_eq!(get_elf_xlen(&data).unwrap(), 32);
}

#[test]
fn test_get_elf_xlen_64() {
    let data = [0x7F, 0x45, 0x4C, 0x46, 0x02, 0x01, 0x01, 0x00];
    assert_eq!(get_elf_xlen(&data).unwrap(), 64);
}

#[test]
fn test_invalid_magic() {
    let data = [0x00, 0x00, 0x00, 0x00, 0x02];
    assert!(matches!(get_elf_xlen(&data), Err(ElfError::InvalidMagic)));
}

#[test]
fn test_git_lfs_pointer() {
    let data = b"version https://git-lfs.github.com/spec/v1\noid sha256:abc123\nsize 12345\n";
    assert!(matches!(get_elf_xlen(data), Err(ElfError::GitLfsPointer)));
}

#[test]
fn elf_xlen_errors() {
    assert_eq!(get_elf_xlen(&[0x7F, 0x45, 0x4C, 0x46]), Err(ElfError::TooSmall));
    assert_eq!(
        get_elf_xlen(&[0x7F, 0x45, 0x4C, 0x46, 0x03]),
        Err(ElfError::UnsupportedClass(3))
    );
    assert!(!is_git_lfs_pointer(b"version https://git-lfs.github.com/spec/v2 and more"));
    assert!(is_git_lfs_pointer(b"version https://git-lfs.github.com/spec/v1"));
}

#[test]
fn test_from_bytecode() {
    let bytecode = vec![0x93, 0x00, 0x10, 0x00]; // ADDI x1, x0, 1
    let image = ElfImage::from_bytecode(bytecode.clone(), 0x8000_0000_u64);

    assert_eq!(image.entry_point, 0x8000_0000);
    assert_eq!(image.memory_segments.len(), 1);
    assert_eq!(image.memory_segments[0].virtual_start, 0x8000_0000);
    assert_eq!(image.memory_segments[0].data, bytecode);
    assert_eq!(image.memory_segments[0].virtual_end, 0x8000_0004);
    assert_eq!(image.get_initial_program_break(), 0x8000_0004);
    assert_eq!(image.total_size(), 4);
}

#[test]
fn test_segment_properties() {
    let segment = MemorySegment {
        virtual_start: 0x1000,
        virtual_end: 0x2000,
        data: vec![0; 0x800],
        flags: PF_R | PF_X,
    };

    assert_eq!(segment.filesz(), 0x800);
    assert_eq!(segment.memsz(), 0x1000);
    assert_eq!(segment.bss_size(), 0x800);
    assert!(segment.is_readonly());
    assert!(segment.is_executable());
}

#[test]
fn segment_executable_sections() {
    let segment = MemorySegment {
        virtual_start: 0x1000,
        virtual_end: 0x2000,
        data: vec![],
        flags: PF_R | PF_W,
    };
    assert!(!segment.is_readonly());
    assert!(!segment.is_executable());
    let text = LoadedSection {
        name: ".text".to_string(),
        addr: 0x1800,
        size: 0x100,
        flags: SHF_EXECINSTR,
        data: vec![],
    };
    let outside = LoadedSection { addr: 0x2000, ..text.clone() };
    let data = LoadedSection { flags: 0, ..text.clone() };
    assert!(segment.has_executable_sections(&[data.clone(), text]));
    assert!(!segment.has_executable_sections(&[data, outside]));
}

fn put16(v: &mut [u8], off: usize, x: u16) {
    v[off..off + 2].copy_from_slice(&x.to_le_bytes());
}
fn put32(v: &mut [u8], off: usize, x: u32) {
    v[off..off + 4].copy_from_slice(&x.to_le_bytes());
}
fn put64(v: &mut [u8], off: usize, x: u64) {
    v[off..off + 8].copy_from_slice(&x.to_le_bytes());
}

/// A small RV64 executable: one LOAD segment with 8 code bytes, sections
/// .text, .symtab and .strtab, and the symbols `_start` (function) and `buf`.
fn sample_elf64() -> Vec<u8> {
    let mut v = vec![0u8; 0x300];
    v[0..4].copy_from_slice(&[0x7F, b'E', b'L', b'F']);
    v[4] = 2; // class 64
    v[5] = 1; // little endian
    v[6] = 1;
    put64(&mut v, 24, 0x8000_0000); // entry
    put64(&mut v, 32, 64); // phoff
    put64(&mut v, 40, 0x200); // shoff
    put32(&mut v, 48, 0x5); // flags: RVC | double float
    put16(&mut v, 52, 64);
    put16(&mut v, 54, 56); // phentsize
    put16(&mut v, 56, 1); // phnum
    put16(&mut v, 58, 64); // shentsize
    put16(&mut v, 60, 4); // shnum
    put16(&mut v, 62, 3); // shstrndx
    // program header
    let ph = 64;
    put32(&mut v, ph, 1); // PT_LOAD
    put32(&mut v, ph + 4, PF_R | PF_X);
    put64(&mut v, ph + 8, 0x100); // offset
    put64(&mut v, ph + 16, 0x8000_0000); // vaddr
    put64(&mut v, ph + 24, 0x8000_0000);
    put64(&mut v, ph + 32, 8); // filesz
    put64(&mut v, ph + 40, 0x10); // memsz
    put64(&mut v, ph + 48, 4);
    // code
    v[0x100..0x108].copy_from_slice(&[0x93, 0x00, 0x10, 0x00, 0x6f, 0x00, 0x00, 0x00]);
    // string table at 0x140
    let strtab = b"\0.text\0.symtab\0.strtab\0_start\0buf\0";
    v[0x140..0x140 + strtab.len()].copy_from_slice(strtab);
    // symbols at 0x180: null, _start, buf
    let sym = 0x180;
    put32(&mut v, sym + 24, 23); // "_start"
    v[sym + 24 + 4] = (1 << 4) | 2; // global func
    put16(&mut v, sym + 24 + 6, 1);
    put64(&mut v, sym + 24 + 8, 0x8000_0000);
    put64(&mut v, sym + 24 + 16, 8);
    put32(&mut v, sym + 48, 30); // "buf"
    v[sym + 48 + 4] = (1 << 4) | 1; // global object
    put64(&mut v, sym + 48 + 8, 0x8000_0100);
    // section headers at 0x200
    let sh = |i: usize| 0x200 + i * 64;
    // [1] .text
    put32(&mut v, sh(1), 1);
    put32(&mut v, sh(1) + 4, 1); // PROGBITS
    put64(&mut v, sh(1) + 8, 0x2 | 0x4); // ALLOC | EXECINSTR
    put64(&mut v, sh(1) + 16, 0x8000_0000);
    put64(&mut v, sh(1) + 24, 0x100);
    put64(&mut v, sh(1) + 32, 8);
    // [2] .symtab
    put32(&mut v, sh(2), 7);
    put32(&mut v, sh(2) + 4, 2); // SYMTAB
    put64(&mut v, sh(2) + 24, 0x180);
    put64(&mut v, sh(2) + 32, 72);
    put32(&mut v, sh(2) + 40, 3); // link to .strtab
    put64(&mut v, sh(2) + 56, 24);
    // [3] .strtab
    put32(&mut v, sh(3), 15);
    put32(&mut v, sh(3) + 4, 3); // STRTAB
    put64(&mut v, sh(3) + 24, 0x140);
    put64(&mut v, sh(3) + 32, strtab.len() as u64);
    v
}

#[test]
fn parse_sample_elf64() {
    let data = sample_elf64();
    let f = ElfFile::parse(&data, Xlen::Rv64).unwrap();
    assert_eq!(f.entry_point, 0x8000_0000);
    assert!(f.is_rvc());
    assert!(!f.is_rve());
    assert_eq!(f.program_headers.len(), 1);
    assert_eq!(f.program_headers[0].memsz, 0x10);
    assert_eq!(f.sections.len(), 1);
    assert_eq!(f.sections[0].name, ".text");
    assert_eq!(f.sections[0].data, vec![0x93, 0x00, 0x10, 0x00, 0x6f, 0x00, 0x00, 0x00]);
    assert_eq!(f.symbols.len(), 3);
    assert_eq!(f.symbols[1].name, "_start");
    assert_eq!(f.symbols[1].binding, 1);
    assert_eq!(f.lookup_symbol("_start"), Some(0x8000_0000));
    assert_eq!(f.lookup_function("_start"), Some(0x8000_0000));
    assert_eq!(f.lookup_symbol("buf"), Some(0x8000_0100));
    assert_eq!(f.lookup_function("buf"), None);
    assert_eq!(f.lookup_symbol("missing"), None);

    let img = ElfImage::parse(&data, Xlen::Rv64).unwrap();
    assert_eq!(img.entry_point, 0x8000_0000);
    assert_eq!(img.memory_segments.len(), 1);
    let seg = &img.memory_segments[0];
    assert_eq!(seg.virtual_start, 0x8000_0000);
    assert_eq!(seg.virtual_end, 0x8000_0010);
    assert_eq!(seg.data.len(), 8);
    assert_eq!(seg.bss_size(), 8);
    assert_eq!(img.get_initial_program_break(), 0x8000_0010);
    assert_eq!(img.total_size(), 0x10);
    assert_eq!(img.lookup_function("_start"), Some(0x8000_0000));
}

#[test]
fn parse_errors() {
    let data = sample_elf64();
    assert!(matches!(
        ElfFile::parse(&data, Xlen::Rv32),
        Err(ElfError::XlenMismatch { expected: 32, actual: 64 })
    ));
    assert!(matches!(ElfFile::parse(&data[..40], Xlen::Rv64), Err(ElfError::TooSmall)));

    let mut big_endian = data.clone();
    big_endian[5] = 2;
    assert!(matches!(ElfFile::parse(&big_endian, Xlen::Rv64), Err(ElfError::NotLittleEndian)));

    let mut bad_magic = data.clone();
    bad_magic[1] = 0;
    assert!(matches!(ElfFile::parse(&bad_magic, Xlen::Rv64), Err(ElfError::InvalidMagic)));

    let mut ph_out = data.clone();
    put64(&mut ph_out, 32, 0x2f0);
    assert!(matches!(ElfFile::parse(&ph_out, Xlen::Rv64), Err(ElfError::ProgramOutOfBounds)));

    let mut sh_out = data.clone();
    put16(&mut sh_out, 60, 40);
    assert!(matches!(ElfFile::parse(&sh_out, Xlen::Rv64), Err(ElfError::SectionOutOfBounds)));

    let mut beyond = data.clone();
    put64(&mut beyond, 64 + 32, 0x1000);
    assert!(matches!(ElfImage::parse(&beyond, Xlen::Rv64), Err(ElfError::SegmentBeyondFile)));

    let mut overflow = data.clone();
    put64(&mut overflow, 64 + 16, u64::MAX - 4);
    assert!(matches!(
        ElfImage::parse(&overflow, Xlen::Rv64),
        Err(ElfError::VirtualAddressOverflow)
    ));

    let mut none = data.clone();
    put32(&mut none, 64, 4); // PT_NOTE
    assert!(matches!(ElfImage::parse(&none, Xlen::Rv64), Err(ElfError::NoLoadableSegments)));
}

#[test]
fn overlapping_and_too_many_segments() {
    let mut data = sample_elf64();
    // second program header overlapping the first, placed at offset 120
    put16(&mut data, 56, 2);
    let ph = 64 + 56;
    put32(&mut data, ph, 1);
    put64(&mut data, ph + 8, 0x100);
    put64(&mut data, ph + 16, 0x8000_0008);
    put64(&mut data, ph + 32, 4);
    put64(&mut data, ph + 40, 0x10);
    assert!(matches!(
        ElfImage::parse(&data, Xlen::Rv64),
        Err(ElfError::OverlappingSegments)
    ));
    // disjoint second segment: accepted
    put64(&mut data, ph + 16, 0x8000_1000);
    let img = ElfImage::parse(&data, Xlen::Rv64).unwrap();
    assert_eq!(img.memory_segments.len(), 2);
    assert_eq!(img.get_initial_program_break(), 0x8000_1010);
    assert_eq!(img.total_size(), 0x20);
}
