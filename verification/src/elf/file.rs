//! ELF file parser: header, program headers, section headers, allocated
//! sections and the symbol table.

use vstd::prelude::*;

use crate::bytes::{le_value, read_le16, read_le32, read_le64};
use crate::config::Xlen;
use crate::elf::defs::{
    ElfError, ElfHeader, LoadedSection, ProgramHeader, SectionHeader, Symbol, EF_RISCV_RVC,
    EF_RISCV_RVE, ELF_CLASS_32, ELF_CLASS_64, ELF_DATA_LSB, ELF_MAGIC, SHF_ALLOC, SHT_NOBITS,
    SHT_PROGBITS, SHT_SYMTAB, STT_FUNC,
};
use crate::text::{push_char, push_str, str_chars, str_eq};

verus! {

/// Little-endian value of the `n` bytes of `data` at `off`.
pub open spec fn le(data: Seq<u8>, off: int, n: int) -> nat {
    le_value(data.subrange(off, off + n))
}

/// Git LFS pointer file prefix (`version https://git-lfs.github.com/spec/v1`).
pub const GIT_LFS_PREFIX: [u8; 42] = [
    118, 101, 114, 115, 105, 111, 110, 32, 104, 116, 116, 112, 115, 58, 47, 47, 103, 105, 116,
    45, 108, 102, 115, 46, 103, 105, 116, 104, 117, 98, 46, 99, 111, 109, 47, 115, 112, 101, 99,
    47, 118, 49,
];

/// Whether the data starts with the Git LFS pointer prefix.
pub open spec fn lfs_pointer(data: Seq<u8>) -> bool {
    data.len() >= 42 && data.take(42) == GIT_LFS_PREFIX@
}

/// Whether data looks like a Git LFS pointer file (the ELF was never fetched).
pub fn is_git_lfs_pointer(data: &[u8]) -> (r: bool)
    ensures
        r == lfs_pointer(data@),
{
    if data.len() < 42 {
        return false;
    }
    let mut i: usize = 0;
    while i < 42
        invariant
            i <= 42,
            data@.len() >= 42,
            forall|j: int| 0 <= j < i ==> data@[j] == GIT_LFS_PREFIX@[j],
        decreases 42 - i,
    {
        if data[i] != GIT_LFS_PREFIX[i] {
            assert(data@.take(42)[i as int] != GIT_LFS_PREFIX@[i as int]);
            return false;
        }
        i += 1;
    }
    assert(data@.take(42) =~= GIT_LFS_PREFIX@);
    true
}

/// What peeking at the identification bytes gives.
pub open spec fn elf_xlen_result(data: Seq<u8>) -> Result<u8, ElfError> {
    if data.len() < 5 {
        Err(ElfError::TooSmall)
    } else if lfs_pointer(data) {
        Err(ElfError::GitLfsPointer)
    } else if data[0] != 0x7F || data[1] != 0x45 || data[2] != 0x4C || data[3] != 0x46 {
        Err(ElfError::InvalidMagic)
    } else if data[4] == ELF_CLASS_32 {
        Ok(32)
    } else if data[4] == ELF_CLASS_64 {
        Ok(64)
    } else {
        Err(ElfError::UnsupportedClass(data[4]))
    }
}

/// Peek at the ELF header to determine XLEN (32 or 64) without full parsing.
pub fn get_elf_xlen(data: &[u8]) -> (r: Result<u8, ElfError>)
    ensures
        r == elf_xlen_result(data@),
{
    if data.len() < 5 {
        return Err(ElfError::TooSmall);
    }
    if is_git_lfs_pointer(data) {
        return Err(ElfError::GitLfsPointer);
    }
    if data[0] != 0x7F || data[1] != 0x45 || data[2] != 0x4C || data[3] != 0x46 {
        return Err(ElfError::InvalidMagic);
    }
    match data[4] {
        ELF_CLASS_32 => Ok(32),
        ELF_CLASS_64 => Ok(64),
        other => Err(ElfError::UnsupportedClass(other)),
    }
}

/// Register width in bits.
pub open spec fn xlen_bits(xlen: Xlen) -> u8 {
    if xlen == Xlen::Rv64 {
        64
    } else {
        32
    }
}

/// Size of the ELF header for a register width.
pub open spec fn header_size(xlen: Xlen) -> int {
    if xlen == Xlen::Rv64 {
        64
    } else {
        52
    }
}

/// The header fields read from `data` (which holds a whole header).
pub open spec fn header_at(data: Seq<u8>, xlen: Xlen) -> ElfHeader {
    if xlen == Xlen::Rv64 {
        ElfHeader {
            magic: le(data, 0, 4) as u32,
            class: data[4],
            data: data[5],
            version: data[6],
            abi: data[7],
            abi_version: data[8],
            entry: le(data, 24, 8) as u64,
            phoff: le(data, 32, 8) as u64,
            shoff: le(data, 40, 8) as u64,
            flags: le(data, 48, 4) as u32,
            ehsize: le(data, 52, 2) as u16,
            phentsize: le(data, 54, 2) as u16,
            phnum: le(data, 56, 2) as u16,
            shentsize: le(data, 58, 2) as u16,
            shnum: le(data, 60, 2) as u16,
            shstrndx: le(data, 62, 2) as u16,
        }
    } else {
        ElfHeader {
            magic: le(data, 0, 4) as u32,
            class: data[4],
            data: data[5],
            version: data[6],
            abi: data[7],
            abi_version: data[8],
            entry: le(data, 24, 4) as u64,
            phoff: le(data, 28, 4) as u64,
            shoff: le(data, 32, 4) as u64,
            flags: le(data, 36, 4) as u32,
            ehsize: le(data, 40, 2) as u16,
            phentsize: le(data, 42, 2) as u16,
            phnum: le(data, 44, 2) as u16,
            shentsize: le(data, 46, 2) as u16,
            shnum: le(data, 48, 2) as u16,
            shstrndx: le(data, 50, 2) as u16,
        }
    }
}

/// What reading the ELF header gives.
pub open spec fn header_result(data: Seq<u8>, xlen: Xlen) -> Result<ElfHeader, ElfError> {
    if data.len() < header_size(xlen) {
        Err(ElfError::TooSmall)
    } else if lfs_pointer(data) {
        Err(ElfError::GitLfsPointer)
    } else if le(data, 0, 4) != ELF_MAGIC {
        Err(ElfError::InvalidMagic)
    } else if data[5] != ELF_DATA_LSB {
        Err(ElfError::NotLittleEndian)
    } else {
        Ok(header_at(data, xlen))
    }
}

/// Size of a program header entry.
pub open spec fn ph_size(xlen: Xlen) -> int {
    if xlen == Xlen::Rv64 {
        56
    } else {
        32
    }
}

/// The program header at `off`.
#[verifier::opaque]
pub open spec fn ph_at(data: Seq<u8>, off: int, xlen: Xlen) -> ProgramHeader {
    if xlen == Xlen::Rv64 {
        ProgramHeader {
            p_type: le(data, off, 4) as u32,
            flags: le(data, off + 4, 4) as u32,
            offset: le(data, off + 8, 8) as u64,
            vaddr: le(data, off + 16, 8) as u64,
            paddr: le(data, off + 24, 8) as u64,
            filesz: le(data, off + 32, 8) as u64,
            memsz: le(data, off + 40, 8) as u64,
            align: le(data, off + 48, 8) as u64,
        }
    } else {
        ProgramHeader {
            p_type: le(data, off, 4) as u32,
            offset: le(data, off + 4, 4) as u64,
            vaddr: le(data, off + 8, 4) as u64,
            paddr: le(data, off + 12, 4) as u64,
            filesz: le(data, off + 16, 4) as u64,
            memsz: le(data, off + 20, 4) as u64,
            flags: le(data, off + 24, 4) as u32,
            align: le(data, off + 28, 4) as u64,
        }
    }
}

/// File offset of program header `i`.
pub open spec fn ph_offset(h: ElfHeader, i: int) -> int {
    h.phoff + i * h.phentsize
}

/// Whether every program header lies in the file.
pub open spec fn phs_in_bounds(data: Seq<u8>, h: ElfHeader, xlen: Xlen) -> bool {
    forall|i: int| 0 <= i < h.phnum ==> #[trigger] ph_offset(h, i) + ph_size(xlen) <= data.len()
}

/// The program headers.
pub open spec fn phs_at(data: Seq<u8>, h: ElfHeader, xlen: Xlen) -> Seq<ProgramHeader> {
    Seq::new(h.phnum as nat, |i: int| ph_at(data, ph_offset(h, i), xlen))
}

/// Size of a section header entry.
pub open spec fn sh_size(xlen: Xlen) -> int {
    if xlen == Xlen::Rv64 {
        64
    } else {
        40
    }
}

/// The section header at `off`.
#[verifier::opaque]
pub open spec fn sh_at(data: Seq<u8>, off: int, xlen: Xlen) -> SectionHeader {
    if xlen == Xlen::Rv64 {
        SectionHeader {
            name: le(data, off, 4) as u32,
            sh_type: le(data, off + 4, 4) as u32,
            flags: le(data, off + 8, 8) as u64,
            addr: le(data, off + 16, 8) as u64,
            offset: le(data, off + 24, 8) as u64,
            size: le(data, off + 32, 8) as u64,
            link: le(data, off + 40, 4) as u32,
            info: le(data, off + 44, 4) as u32,
            addralign: le(data, off + 48, 8) as u64,
            entsize: le(data, off + 56, 8) as u64,
        }
    } else {
        SectionHeader {
            name: le(data, off, 4) as u32,
            sh_type: le(data, off + 4, 4) as u32,
            flags: le(data, off + 8, 4) as u64,
            addr: le(data, off + 12, 4) as u64,
            offset: le(data, off + 16, 4) as u64,
            size: le(data, off + 20, 4) as u64,
            link: le(data, off + 24, 4) as u32,
            info: le(data, off + 28, 4) as u32,
            addralign: le(data, off + 32, 4) as u64,
            entsize: le(data, off + 36, 4) as u64,
        }
    }
}

/// File offset of section header `i`.
pub open spec fn sh_offset(h: ElfHeader, i: int) -> int {
    h.shoff + i * h.shentsize
}

/// Whether every section header lies in the file.
pub open spec fn shs_in_bounds(data: Seq<u8>, h: ElfHeader, xlen: Xlen) -> bool {
    forall|i: int| 0 <= i < h.shnum ==> #[trigger] sh_offset(h, i) + sh_size(xlen) <= data.len()
}

/// The section headers.
pub open spec fn shs_at(data: Seq<u8>, h: ElfHeader, xlen: Xlen) -> Seq<SectionHeader> {
    Seq::new(h.shnum as nat, |i: int| sh_at(data, sh_offset(h, i), xlen))
}

/// The NUL-terminated string starting at `i` (bytes read as Latin-1 characters).
pub open spec fn cstr(data: Seq<u8>, i: int) -> Seq<char>
    decreases data.len() - i,
{
    if i < 0 || i >= data.len() || data[i] == 0 {
        Seq::empty()
    } else {
        seq![data[i] as char] + cstr(data, i + 1)
    }
}

/// File data of a section: file bytes (zero past the end of the file) for
/// PROGBITS, zeros for NOBITS, nothing otherwise.
pub open spec fn section_data(data: Seq<u8>, s: SectionHeader) -> Seq<u8> {
    if s.sh_type == SHT_PROGBITS {
        Seq::new(
            s.size as nat,
            |i: int|
                if s.offset + i < data.len() {
                    data[s.offset + i]
                } else {
                    0u8
                },
        )
    } else if s.sh_type == SHT_NOBITS {
        Seq::new(s.size as nat, |i: int| 0u8)
    } else {
        Seq::empty()
    }
}

/// A loaded section, named from the section-name string table when there is one.
pub open spec fn loaded_section(
    data: Seq<u8>,
    s: SectionHeader,
    strtab: Option<SectionHeader>,
) -> (Seq<char>, u64, u64, u64, Seq<u8>) {
    let name = match strtab {
        Some(t) => cstr(data, t.offset + s.name),
        None => "unknown"@,
    };
    (name, s.addr, s.size, s.flags, section_data(data, s))
}

/// The allocated sections among `shs`, in order.
pub open spec fn loaded_sections(
    data: Seq<u8>,
    shs: Seq<SectionHeader>,
    strtab: Option<SectionHeader>,
) -> Seq<(Seq<char>, u64, u64, u64, Seq<u8>)>
    decreases shs.len(),
{
    if shs.len() == 0 {
        Seq::empty()
    } else {
        let r = loaded_sections(data, shs.drop_last(), strtab);
        if shs.last().flags & SHF_ALLOC != 0 {
            r.push(loaded_section(data, shs.last(), strtab))
        } else {
            r
        }
    }
}

/// The symbol at `off`, if the entry lies in the file.
pub open spec fn symbol_at(data: Seq<u8>, off: int, stroff: int, xlen: Xlen) -> Option<
    (Seq<char>, u64, u64, u8, u8, u16),
> {
    if xlen == Xlen::Rv64 {
        if off + 24 > data.len() {
            None
        } else {
            let info = data[off + 4];
            Some(
                (
                    cstr(data, stroff + le(data, off, 4)),
                    le(data, off + 8, 8) as u64,
                    le(data, off + 16, 8) as u64,
                    info & 0xf,
                    info >> 4,
                    le(data, off + 6, 2) as u16,
                ),
            )
        }
    } else {
        if off + 16 > data.len() {
            None
        } else {
            let info = data[off + 12];
            Some(
                (
                    cstr(data, stroff + le(data, off, 4)),
                    le(data, off + 4, 4) as u64,
                    le(data, off + 8, 4) as u64,
                    info & 0xf,
                    info >> 4,
                    le(data, off + 14, 2) as u16,
                ),
            )
        }
    }
}

/// The symbols of the first `n` table entries that lie in the file.
pub open spec fn symbols_upto(
    data: Seq<u8>,
    off: int,
    entsize: int,
    stroff: int,
    n: nat,
    xlen: Xlen,
) -> Seq<(Seq<char>, u64, u64, u8, u8, u16)>
    decreases n,
{
    if n == 0 {
        Seq::empty()
    } else {
        let r = symbols_upto(data, off, entsize, stroff, (n - 1) as nat, xlen);
        match symbol_at(data, off + (n - 1) * entsize, stroff, xlen) {
            Some(s) => r.push(s),
            None => r,
        }
    }
}

/// Index of the first symbol table section.
pub open spec fn first_symtab(shs: Seq<SectionHeader>, n: int) -> Option<int>
    decreases n,
{
    if n <= 0 {
        None
    } else {
        match first_symtab(shs, n - 1) {
            Some(i) => Some(i),
            None => if shs[n - 1].sh_type == SHT_SYMTAB {
                Some(n - 1)
            } else {
                None
            },
        }
    }
}

/// The symbols of the first symbol table, named from its linked string table.
pub open spec fn symbols_of(data: Seq<u8>, shs: Seq<SectionHeader>, xlen: Xlen) -> Seq<
    (Seq<char>, u64, u64, u8, u8, u16),
> {
    match first_symtab(shs, shs.len() as int) {
        None => Seq::empty(),
        Some(k) => {
            let symtab = shs[k];
            if symtab.link >= shs.len() || symtab.entsize == 0 {
                Seq::empty()
            } else {
                symbols_upto(
                    data,
                    symtab.offset as int,
                    symtab.entsize as int,
                    shs[symtab.link as int].offset as int,
                    (symtab.size / symtab.entsize) as nat,
                    xlen,
                )
            }
        }
    }
}

/// The section-name string table, when its index names a section.
pub open spec fn strtab_of(shs: Seq<SectionHeader>, h: ElfHeader) -> Option<SectionHeader> {
    if h.shstrndx < shs.len() {
        Some(shs[h.shstrndx as int])
    } else {
        None
    }
}

/// Register width an ELF class stands for.
pub open spec fn class_bits(class: u8) -> u8 {
    if class == ELF_CLASS_64 {
        64
    } else {
        32
    }
}

/// The error parsing stops at, if any.
pub open spec fn parse_error(data: Seq<u8>, xlen: Xlen) -> Option<ElfError> {
    match header_result(data, xlen) {
        Err(e) => Some(e),
        Ok(h) => if class_bits(h.class) != xlen_bits(xlen) {
            Some(ElfError::XlenMismatch { expected: xlen_bits(xlen), actual: class_bits(h.class) })
        } else if !phs_in_bounds(data, h, xlen) {
            Some(ElfError::ProgramOutOfBounds)
        } else if !shs_in_bounds(data, h, xlen) {
            Some(ElfError::SectionOutOfBounds)
        } else {
            None
        },
    }
}

/// Views of loaded sections.
pub open spec fn section_views(v: Seq<LoadedSection>) -> Seq<(Seq<char>, u64, u64, u64, Seq<u8>)> {
    v.map_values(|s: LoadedSection| s@)
}

/// Views of symbols.
pub open spec fn symbol_views(v: Seq<Symbol>) -> Seq<(Seq<char>, u64, u64, u8, u8, u16)> {
    v.map_values(|s: Symbol| s@)
}

/// Parsed ELF file.
#[derive(Clone, Debug)]
pub struct ElfFile {
    pub entry_point: u64,
    pub e_flags: u32,
    pub sections: Vec<LoadedSection>,
    pub program_headers: Vec<ProgramHeader>,
    pub symbols: Vec<Symbol>,
}

/// Whether `off + n` lies within `len`, computed without overflow.
fn fits(off: u64, n: u64, len: usize) -> (r: bool)
    ensures
        r == (off + n <= len),
{
    let len = len as u64;
    off <= len && n <= len - off
}

/// The whole of the first NUL-terminated string at `strtab_offset + string_offset`.
fn extract_string(data: &[u8], strtab_offset: u64, string_offset: u64) -> (r: String)
    ensures
        r@ == cstr(data@, strtab_offset + string_offset),
{
    let mut result = String::new();
    let len = data.len();
    let start = match strtab_offset.checked_add(string_offset) {
        Some(s) => s,
        None => {
            assert(cstr(data@, strtab_offset + string_offset) =~= Seq::<char>::empty());
            return result;
        },
    };
    if start >= data.len() as u64 {
        return result;
    }
    let mut i: usize = start as usize;
    while i < data.len() && data[i] != 0
        invariant
            start <= i <= data@.len(),
            result@ + cstr(data@, i as int) == cstr(data@, start as int),
        decreases data@.len() - i,
    {
        let b = data[i];
        push_char(&mut result, b as char);
        proof {
            assert(cstr(data@, i as int) == seq![b as char] + cstr(data@, i + 1));
            assert(result@ + cstr(data@, i + 1) =~= (result@.drop_last() + seq![b as char]) + cstr(
                data@,
                i + 1,
            ));
        }
        i += 1;
    }
    proof {
        assert(cstr(data@, i as int) =~= Seq::<char>::empty());
        assert(result@ + Seq::<char>::empty() =~= result@);
    }
    result
}

impl ElfFile {
    /// Parse an ELF file of the given register width from raw bytes.
    pub fn parse(data: &[u8], xlen: Xlen) -> (r: Result<ElfFile, ElfError>)
        ensures
            r is Err <==> parse_error(data@, xlen) is Some,
            r matches Err(e) ==> parse_error(data@, xlen) == Some(e),
            r matches Ok(f) ==> {
                let h = header_at(data@, xlen);
                let shs = shs_at(data@, h, xlen);
                &&& f.entry_point == h.entry
                &&& f.e_flags == h.flags
                &&& f.program_headers@ == phs_at(data@, h, xlen)
                &&& section_views(f.sections@) == loaded_sections(data@, shs, strtab_of(shs, h))
                &&& symbol_views(f.symbols@) == symbols_of(data@, shs, xlen)
            },
    {
        let header = match Self::parse_header(data, xlen) {
            Ok(h) => h,
            Err(e) => {
                return Err(e);
            },
        };
        let elf_xlen: u8 = if header.class == ELF_CLASS_64 {
            64
        } else {
            32
        };
        let want: u8 = match xlen {
            Xlen::Rv64 => 64,
            Xlen::Rv32 => 32,
        };
        if elf_xlen != want {
            return Err(ElfError::XlenMismatch { expected: want, actual: elf_xlen });
        }
        let program_headers = match Self::parse_program_headers(data, &header, xlen) {
            Ok(v) => v,
            Err(e) => {
                return Err(e);
            },
        };
        let all_sections = match Self::parse_all_sections(data, &header, xlen) {
            Ok(v) => v,
            Err(e) => {
                return Err(e);
            },
        };
        let strtab = Self::find_string_table(all_sections.as_slice(), &header);
        let sections = Self::load_allocatable_sections(data, all_sections.as_slice(), strtab);
        let symbols = Self::parse_symbols(data, all_sections.as_slice(), xlen);
        Ok(ElfFile {
            entry_point: header.entry,
            e_flags: header.flags,
            sections,
            program_headers,
            symbols,
        })
    }

    /// Read the ELF header.
    fn parse_header(data: &[u8], xlen: Xlen) -> (r: Result<ElfHeader, ElfError>)
        ensures
            r == header_result(data@, xlen),
    {
        let min_size: usize = match xlen {
            Xlen::Rv64 => 64,
            Xlen::Rv32 => 52,
        };
        if data.len() < min_size {
            return Err(ElfError::TooSmall);
        }
        if is_git_lfs_pointer(data) {
            return Err(ElfError::GitLfsPointer);
        }
        let magic = read_le32(data, 0);
        if magic != ELF_MAGIC {
            return Err(ElfError::InvalidMagic);
        }
        let class = data[4];
        let data_encoding = data[5];
        let version = data[6];
        let abi = data[7];
        let abi_version = data[8];
        if data_encoding != ELF_DATA_LSB {
            return Err(ElfError::NotLittleEndian);
        }
        match xlen {
            Xlen::Rv64 => Ok(ElfHeader {
                magic,
                class,
                data: data_encoding,
                version,
                abi,
                abi_version,
                entry: read_le64(data, 24),
                phoff: read_le64(data, 32),
                shoff: read_le64(data, 40),
                flags: read_le32(data, 48),
                ehsize: read_le16(data, 52),
                phentsize: read_le16(data, 54),
                phnum: read_le16(data, 56),
                shentsize: read_le16(data, 58),
                shnum: read_le16(data, 60),
                shstrndx: read_le16(data, 62),
            }),
            Xlen::Rv32 => Ok(ElfHeader {
                magic,
                class,
                data: data_encoding,
                version,
                abi,
                abi_version,
                entry: read_le32(data, 24) as u64,
                phoff: read_le32(data, 28) as u64,
                shoff: read_le32(data, 32) as u64,
                flags: read_le32(data, 36),
                ehsize: read_le16(data, 40),
                phentsize: read_le16(data, 42),
                phnum: read_le16(data, 44),
                shentsize: read_le16(data, 46),
                shnum: read_le16(data, 48),
                shstrndx: read_le16(data, 50),
            }),
        }
    }

    /// Read the program header at `offset`.
    fn parse_program_header(data: &[u8], offset: u64, xlen: Xlen) -> (r: Result<
        ProgramHeader,
        ElfError,
    >)
        ensures
            r == if offset + ph_size(xlen) > data@.len() {
                Err(ElfError::ProgramOutOfBounds)
            } else {
                Ok(ph_at(data@, offset as int, xlen))
            },
    {
        reveal(ph_at);
        match xlen {
            Xlen::Rv64 => {
                if !fits(offset, 56, data.len()) {
                    return Err(ElfError::ProgramOutOfBounds);
                }
                let o = offset as usize;
                Ok(ProgramHeader {
                    p_type: read_le32(data, o),
                    flags: read_le32(data, o + 4),
                    offset: read_le64(data, o + 8),
                    vaddr: read_le64(data, o + 16),
                    paddr: read_le64(data, o + 24),
                    filesz: read_le64(data, o + 32),
                    memsz: read_le64(data, o + 40),
                    align: read_le64(data, o + 48),
                })
            },
            Xlen::Rv32 => {
                if !fits(offset, 32, data.len()) {
                    return Err(ElfError::ProgramOutOfBounds);
                }
                let o = offset as usize;
                Ok(ProgramHeader {
                    p_type: read_le32(data, o),
                    offset: read_le32(data, o + 4) as u64,
                    vaddr: read_le32(data, o + 8) as u64,
                    paddr: read_le32(data, o + 12) as u64,
                    filesz: read_le32(data, o + 16) as u64,
                    memsz: read_le32(data, o + 20) as u64,
                    flags: read_le32(data, o + 24),
                    align: read_le32(data, o + 28) as u64,
                })
            },
        }
    }

    /// Read all program headers.
    fn parse_program_headers(data: &[u8], header: &ElfHeader, xlen: Xlen) -> (r: Result<
        Vec<ProgramHeader>,
        ElfError,
    >)
        ensures
            r matches Ok(v) ==> phs_in_bounds(data@, *header, xlen) && v@ == phs_at(
                data@,
                *header,
                xlen,
            ),
            r matches Err(e) ==> !phs_in_bounds(data@, *header, xlen) && e
                == ElfError::ProgramOutOfBounds,
    {
        let mut headers: Vec<ProgramHeader> = Vec::new();
        let mut i: u16 = 0;
        while i < header.phnum
            invariant
                i <= header.phnum,
                headers@ == phs_at(data@, *header, xlen).take(i as int),
                forall|j: int|
                    0 <= j < i ==> #[trigger] ph_offset(*header, j) + ph_size(xlen) <= data@.len(),
            decreases header.phnum - i,
        {
            let len = data.len();
            assert((i as u64) * (header.phentsize as u64) <= 0xffff * 0xffff) by (nonlinear_arith)
                requires
                    i <= 0xffff,
                    header.phentsize <= 0xffff,
            ;
            let step = (i as u64) * (header.phentsize as u64);
            let offset = match header.phoff.checked_add(step) {
                Some(o) => o,
                None => {
                    assert(ph_offset(*header, i as int) + ph_size(xlen) > data@.len());
                    return Err(ElfError::ProgramOutOfBounds);
                },
            };
            assert(offset == ph_offset(*header, i as int));
            let ph = match Self::parse_program_header(data, offset, xlen) {
                Ok(ph) => ph,
                Err(e) => {
                    return Err(e);
                },
            };
            headers.push(ph);
            proof {
                assert(phs_at(data@, *header, xlen).take(i + 1) =~= phs_at(data@, *header, xlen).take(
                    i as int,
                ).push(ph));
            }
            i += 1;
        }
        proof {
            assert(phs_at(data@, *header, xlen).take(i as int) =~= phs_at(data@, *header, xlen));
        }
        Ok(headers)
    }

    /// Read the section header at `offset`.
    fn parse_section_header(data: &[u8], offset: u64, xlen: Xlen) -> (r: Result<
        SectionHeader,
        ElfError,
    >)
        ensures
            r == if offset + sh_size(xlen) > data@.len() {
                Err(ElfError::SectionOutOfBounds)
            } else {
                Ok(sh_at(data@, offset as int, xlen))
            },
    {
        reveal(sh_at);
        match xlen {
            Xlen::Rv64 => {
                if !fits(offset, 64, data.len()) {
                    return Err(ElfError::SectionOutOfBounds);
                }
                let o = offset as usize;
                Ok(SectionHeader {
                    name: read_le32(data, o),
                    sh_type: read_le32(data, o + 4),
                    flags: read_le64(data, o + 8),
                    addr: read_le64(data, o + 16),
                    offset: read_le64(data, o + 24),
                    size: read_le64(data, o + 32),
                    link: read_le32(data, o + 40),
                    info: read_le32(data, o + 44),
                    addralign: read_le64(data, o + 48),
                    entsize: read_le64(data, o + 56),
                })
            },
            Xlen::Rv32 => {
                if !fits(offset, 40, data.len()) {
                    return Err(ElfError::SectionOutOfBounds);
                }
                let o = offset as usize;
                Ok(SectionHeader {
                    name: read_le32(data, o),
                    sh_type: read_le32(data, o + 4),
                    flags: read_le32(data, o + 8) as u64,
                    addr: read_le32(data, o + 12) as u64,
                    offset: read_le32(data, o + 16) as u64,
                    size: read_le32(data, o + 20) as u64,
                    link: read_le32(data, o + 24),
                    info: read_le32(data, o + 28),
                    addralign: read_le32(data, o + 32) as u64,
                    entsize: read_le32(data, o + 36) as u64,
                })
            },
        }
    }

    /// Read all section headers.
    fn parse_all_sections(data: &[u8], header: &ElfHeader, xlen: Xlen) -> (r: Result<
        Vec<SectionHeader>,
        ElfError,
    >)
        ensures
            r matches Ok(v) ==> shs_in_bounds(data@, *header, xlen) && v@ == shs_at(
                data@,
                *header,
                xlen,
            ),
            r matches Err(e) ==> !shs_in_bounds(data@, *header, xlen) && e
                == ElfError::SectionOutOfBounds,
    {
        let mut sections: Vec<SectionHeader> = Vec::new();
        let mut i: u16 = 0;
        while i < header.shnum
            invariant
                i <= header.shnum,
                sections@ == shs_at(data@, *header, xlen).take(i as int),
                forall|j: int|
                    0 <= j < i ==> #[trigger] sh_offset(*header, j) + sh_size(xlen) <= data@.len(),
            decreases header.shnum - i,
        {
            let len = data.len();
            assert((i as u64) * (header.shentsize as u64) <= 0xffff * 0xffff) by (nonlinear_arith)
                requires
                    i <= 0xffff,
                    header.shentsize <= 0xffff,
            ;
            let step = (i as u64) * (header.shentsize as u64);
            let offset = match header.shoff.checked_add(step) {
                Some(o) => o,
                None => {
                    assert(sh_offset(*header, i as int) + sh_size(xlen) > data@.len());
                    return Err(ElfError::SectionOutOfBounds);
                },
            };
            assert(offset == sh_offset(*header, i as int));
            let sh = match Self::parse_section_header(data, offset, xlen) {
                Ok(sh) => sh,
                Err(e) => {
                    return Err(e);
                },
            };
            sections.push(sh);
            proof {
                assert(shs_at(data@, *header, xlen).take(i + 1) =~= shs_at(data@, *header, xlen).take(
                    i as int,
                ).push(sh));
            }
            i += 1;
        }
        proof {
            assert(shs_at(data@, *header, xlen).take(i as int) =~= shs_at(data@, *header, xlen));
        }
        Ok(sections)
    }

    /// The section-name string table.
    fn find_string_table(sections: &[SectionHeader], header: &ElfHeader) -> (r: Option<
        SectionHeader,
    >)
        ensures
            r == strtab_of(sections@, *header),
    {
        let idx = header.shstrndx as usize;
        if idx < sections.len() {
            Some(sections[idx])
        } else {
            None
        }
    }

    /// The file data of a section.
    fn load_section_data(data: &[u8], section: &SectionHeader) -> (r: Vec<u8>)
        ensures
            r@ == section_data(data@, *section),
    {
        let size = section.size;
        let offset = section.offset;
        let mut bytes: Vec<u8> = Vec::new();
        if section.sh_type == SHT_PROGBITS {
            let mut i: u64 = 0;
            while i < size
                invariant
                    i <= size,
                    size == section.size,
                    offset == section.offset,
                    section.sh_type == SHT_PROGBITS,
                    bytes@ == section_data(data@, *section).take(i as int),
                decreases size - i,
            {
                if fits(offset, i + 1, data.len()) {
                    bytes.push(data[(offset + i) as usize]);
                } else {
                    bytes.push(0);
                }
                proof {
                    assert(section_data(data@, *section).take(i + 1) =~= section_data(
                        data@,
                        *section,
                    ).take(i as int).push(bytes@.last()));
                }
                i += 1;
            }
            proof {
                assert(section_data(data@, *section).take(i as int) =~= section_data(
                    data@,
                    *section,
                ));
            }
        } else if section.sh_type == SHT_NOBITS {
            let mut i: u64 = 0;
            while i < size
                invariant
                    i <= size,
                    size == section.size,
                    section.sh_type == SHT_NOBITS,
                    bytes@ == section_data(data@, *section).take(i as int),
                decreases size - i,
            {
                bytes.push(0);
                proof {
                    assert(section_data(data@, *section).take(i + 1) =~= section_data(
                        data@,
                        *section,
                    ).take(i as int).push(0u8));
                }
                i += 1;
            }
            proof {
                assert(section_data(data@, *section).take(i as int) =~= section_data(
                    data@,
                    *section,
                ));
            }
        } else {
            assert(bytes@ =~= section_data(data@, *section));
        }
        bytes
    }

    /// The allocated sections, with their names and data.
    fn load_allocatable_sections(
        data: &[u8],
        sections: &[SectionHeader],
        strtab: Option<SectionHeader>,
    ) -> (r: Vec<LoadedSection>)
        ensures
            section_views(r@) == loaded_sections(data@, sections@, strtab),
    {
        let mut loaded: Vec<LoadedSection> = Vec::new();
        let mut k: usize = 0;
        while k < sections.len()
            invariant
                k <= sections@.len(),
                section_views(loaded@) == loaded_sections(data@, sections@.take(k as int), strtab),
            decreases sections.len() - k,
        {
            let section = sections[k];
            proof {
                assert(sections@.take(k + 1).drop_last() =~= sections@.take(k as int));
                assert(sections@.take(k + 1).last() == section);
            }
            if section.flags & SHF_ALLOC != 0 {
                let section_data = Self::load_section_data(data, &section);
                let name = match strtab {
                    Some(t) => extract_string(data, t.offset, section.name as u64),
                    None => {
                        let mut n = String::new();
                        push_str(&mut n, "unknown");
                        n
                    },
                };
                let ls = LoadedSection {
                    name,
                    addr: section.addr,
                    size: section.size,
                    flags: section.flags,
                    data: section_data,
                };
                let ghost before = loaded@;
                loaded.push(ls);
                proof {
                    assert(loaded@ =~= before.push(ls));
                    assert(section_views(loaded@) =~= section_views(before).push(ls@));
                }
            }
            k += 1;
        }
        proof {
            assert(sections@.take(k as int) =~= sections@);
        }
        loaded
    }

    /// Read the symbol entry at `offset`, if it lies in the file.
    fn parse_symbol(data: &[u8], offset: u64, strtab_offset: u64, xlen: Xlen) -> (r: Option<
        Symbol,
    >)
        ensures
            match r {
                Some(s) => symbol_at(data@, offset as int, strtab_offset as int, xlen) == Some(s@),
                None => symbol_at(data@, offset as int, strtab_offset as int, xlen) is None,
            },
    {
        match xlen {
            Xlen::Rv64 => {
                if !fits(offset, 24, data.len()) {
                    return None;
                }
                let o = offset as usize;
                let name_idx = read_le32(data, o);
                let info = data[o + 4];
                let shndx = read_le16(data, o + 6);
                let value = read_le64(data, o + 8);
                let size = read_le64(data, o + 16);
                let name = extract_string(data, strtab_offset, name_idx as u64);
                Some(Symbol { name, value, size, sym_type: info & 0xf, binding: info >> 4, shndx })
            },
            Xlen::Rv32 => {
                if !fits(offset, 16, data.len()) {
                    return None;
                }
                let o = offset as usize;
                let name_idx = read_le32(data, o);
                let value = read_le32(data, o + 4) as u64;
                let size = read_le32(data, o + 8) as u64;
                let info = data[o + 12];
                let shndx = read_le16(data, o + 14);
                let name = extract_string(data, strtab_offset, name_idx as u64);
                Some(Symbol { name, value, size, sym_type: info & 0xf, binding: info >> 4, shndx })
            },
        }
    }

    /// Read the symbol table.
    fn parse_symbols(data: &[u8], sections: &[SectionHeader], xlen: Xlen) -> (r: Vec<Symbol>)
        ensures
            symbol_views(r@) == symbols_of(data@, sections@, xlen),
    {
        let mut symbols: Vec<Symbol> = Vec::new();
        let mut k: usize = 0;
        while k < sections.len() && sections[k].sh_type != SHT_SYMTAB
            invariant
                k <= sections@.len(),
                first_symtab(sections@, k as int) is None,
            decreases sections.len() - k,
        {
            k += 1;
        }
        if k == sections.len() {
            assert(symbol_views(symbols@) =~= Seq::empty());
            return symbols;
        }
        assert(first_symtab(sections@, k + 1) == Some(k as int));
        proof {
            lemma_first_symtab_stable(sections@, k + 1, sections@.len() as int);
        }
        let symtab = sections[k];
        let strtab_idx = symtab.link as usize;
        if strtab_idx >= sections.len() {
            assert(symbol_views(symbols@) =~= Seq::empty());
            return symbols;
        }
        let strtab_offset = sections[strtab_idx].offset;
        let entsize = symtab.entsize;
        if entsize == 0 {
            assert(symbol_views(symbols@) =~= Seq::empty());
            return symbols;
        }
        let num_symbols = symtab.size / entsize;
        let mut i: u64 = 0;
        while i < num_symbols
            invariant
                i <= num_symbols,
                num_symbols == symtab.size / entsize,
                entsize == symtab.entsize,
                entsize > 0,
                symbol_views(symbols@) == symbols_upto(
                    data@,
                    symtab.offset as int,
                    entsize as int,
                    strtab_offset as int,
                    i as nat,
                    xlen,
                ),
            decreases num_symbols - i,
        {
            proof {
                assert(i * entsize <= (num_symbols - 1) * entsize) by (nonlinear_arith)
                    requires
                        i < num_symbols,
                ;
                assert(num_symbols * entsize <= symtab.size) by (nonlinear_arith)
                    requires
                        num_symbols == symtab.size / entsize,
                        entsize > 0,
                ;
                assert((num_symbols - 1) * entsize == num_symbols * entsize - entsize) by (
                nonlinear_arith);
            }
            let len = data.len();
            let step = i * entsize;
            match symtab.offset.checked_add(step) {
                Some(offset) => {
                    let ghost before = symbols@;
                    match Self::parse_symbol(data, offset, strtab_offset, xlen) {
                        Some(sym) => {
                            symbols.push(sym);
                            proof {
                                assert(symbols@ =~= before.push(sym));
                                assert(symbol_views(symbols@) =~= symbol_views(before).push(sym@));
                            }
                        },
                        None => {},
                    }
                },
                None => {
                    assert(symbol_at(
                        data@,
                        symtab.offset + i * entsize,
                        strtab_offset as int,
                        xlen,
                    ) is None);
                },
            }
            i += 1;
        }
        symbols
    }

    /// Value of the first symbol with the given name.
    pub fn lookup_symbol(&self, name: &str) -> (r: Option<u64>)
        ensures
            r == first_named(self.symbols@, name@, false),
    {
        self.find_symbol(name, false)
    }

    /// Value of the first function symbol with the given name.
    pub fn lookup_function(&self, name: &str) -> (r: Option<u64>)
        ensures
            r == first_named(self.symbols@, name@, true),
    {
        self.find_symbol(name, true)
    }

    fn find_symbol(&self, name: &str, functions_only: bool) -> (r: Option<u64>)
        ensures
            r == first_named(self.symbols@, name@, functions_only),
    {
        find_named(self.symbols.as_slice(), name, functions_only)
    }

    /// Whether the ELF uses the E (embedded) extension with 16 registers.
    pub fn is_rve(&self) -> (r: bool)
        ensures
            r == (self.e_flags & EF_RISCV_RVE != 0),
    {
        self.e_flags & EF_RISCV_RVE != 0
    }

    /// Whether the ELF uses the C (compressed) extension.
    pub fn is_rvc(&self) -> (r: bool)
        ensures
            r == (self.e_flags & EF_RISCV_RVC != 0),
    {
        self.e_flags & EF_RISCV_RVC != 0
    }
}

proof fn lemma_first_symtab_stable(shs: Seq<SectionHeader>, a: int, b: int)
    requires
        0 <= a <= b,
        first_symtab(shs, a) is Some,
    ensures
        first_symtab(shs, b) == first_symtab(shs, a),
    decreases b - a,
{
    if a < b {
        lemma_first_symtab_stable(shs, a, b - 1);
    }
}

/// Value of the first symbol named `name` (only function symbols if asked).
pub open spec fn first_named(syms: Seq<Symbol>, name: Seq<char>, functions_only: bool) -> Option<
    u64,
>
    decreases syms.len(),
{
    if syms.len() == 0 {
        None
    } else if syms[0].name@ == name && (!functions_only || syms[0].sym_type == STT_FUNC) {
        Some(syms[0].value)
    } else {
        first_named(syms.drop_first(), name, functions_only)
    }
}


/// Value of the first symbol named `name` in a list.
pub fn find_named(syms: &[Symbol], name: &str, functions_only: bool) -> (r: Option<u64>)
    ensures
        r == first_named(syms@, name@, functions_only),
{
    let mut k: usize = 0;
    assert(syms@.subrange(0, syms@.len() as int) =~= syms@);
    while k < syms.len()
        invariant
            k <= syms@.len(),
            first_named(syms@, name@, functions_only) == first_named(
                syms@.subrange(k as int, syms@.len() as int),
                name@,
                functions_only,
            ),
        decreases syms.len() - k,
    {
        let ghost rest = syms@.subrange(k as int, syms@.len() as int);
        assert(rest[0] == syms@[k as int]);
        assert(rest.drop_first() =~= syms@.subrange(k + 1, syms@.len() as int));
        let s = &syms[k];
        if str_eq(s.name.as_str(), name) && (!functions_only || s.sym_type == STT_FUNC) {
            return Some(s.value);
        }
        k += 1;
    }
    assert(syms@.subrange(k as int, syms@.len() as int).len() == 0);
    None
}

/// The little-endian 32-bit word made of the four bytes of `data` at `off`.
pub open spec fn word32_at(data: Seq<u8>, off: int) -> int {
    data[off] + 0x100 * data[off + 1] + 0x1_0000 * data[off + 2] + 0x100_0000 * data[off + 3]
}

/// Four little-endian bytes read as a number make the 32-bit word they spell.
proof fn lemma_le_four_bytes(data: Seq<u8>, off: int)
    requires
        0 <= off,
        off + 4 <= data.len(),
    ensures
        le(data, off, 4) == word32_at(data, off),
{
    let s = data.subrange(off, off + 4);
    let s1 = s.drop_first();
    let s2 = s1.drop_first();
    let s3 = s2.drop_first();
    let s4 = s3.drop_first();
    assert(s4.len() == 0);
    assert(le_value(s4) == 0);
    assert(le_value(s3) == s3[0] as nat + 256 * le_value(s4));
    assert(le_value(s2) == s2[0] as nat + 256 * le_value(s3));
    assert(le_value(s1) == s1[0] as nat + 256 * le_value(s2));
    assert(le_value(s) == s[0] as nat + 256 * le_value(s1));
    assert(s[0] == data[off] && s1[0] == data[off + 1] && s2[0] == data[off + 2] && s3[0] == data[
        off + 3]);
}

/// In a 32-bit image (Elf32_Phdr layout), each program header read has the
/// little-endian words of its entry as fields: `p_type` at byte 0,
/// `p_offset` at 4, `p_vaddr` at 8, `p_filesz` at 16 and `p_memsz` at 20.
/// So a segment whose memory size exceeds its file size keeps the extra
/// (BSS) bytes.
pub proof fn law_elf32_program_header_fields(data: Seq<u8>, h: ElfHeader, i: int)
    requires
        0 <= i < h.phnum,
        ph_offset(h, i) + 32 <= data.len(),
    ensures
        phs_at(data, h, Xlen::Rv32)[i].p_type == word32_at(data, ph_offset(h, i)),
        phs_at(data, h, Xlen::Rv32)[i].offset == word32_at(data, ph_offset(h, i) + 4),
        phs_at(data, h, Xlen::Rv32)[i].vaddr == word32_at(data, ph_offset(h, i) + 8),
        phs_at(data, h, Xlen::Rv32)[i].filesz == word32_at(data, ph_offset(h, i) + 16),
        phs_at(data, h, Xlen::Rv32)[i].memsz == word32_at(data, ph_offset(h, i) + 20),
{
    reveal(ph_at);
    let o = ph_offset(h, i);
    assert(o >= 0) by (nonlinear_arith)
        requires
            o == h.phoff + i * h.phentsize,
            i >= 0,
    ;
    lemma_le_four_bytes(data, o);
    lemma_le_four_bytes(data, o + 4);
    lemma_le_four_bytes(data, o + 8);
    lemma_le_four_bytes(data, o + 16);
    lemma_le_four_bytes(data, o + 20);
}

/// The little-endian 64-bit word made of the eight bytes of `data` at `off`.
pub open spec fn word64_at(data: Seq<u8>, off: int) -> int {
    word32_at(data, off) + 0x1_0000_0000 * word32_at(data, off + 4)
}

/// Eight little-endian bytes read as a number make the 64-bit word they spell.
proof fn lemma_le_eight_bytes(data: Seq<u8>, off: int)
    requires
        0 <= off,
        off + 8 <= data.len(),
    ensures
        le(data, off, 8) == word64_at(data, off),
{
    let s = data.subrange(off, off + 8);
    let s1 = s.drop_first();
    let s2 = s1.drop_first();
    let s3 = s2.drop_first();
    let s4 = s3.drop_first();
    assert(s4 =~= data.subrange(off + 4, off + 8));
    lemma_le_four_bytes(data, off + 4);
    assert(le_value(s3) == s3[0] as nat + 256 * le_value(s4));
    assert(le_value(s2) == s2[0] as nat + 256 * le_value(s3));
    assert(le_value(s1) == s1[0] as nat + 256 * le_value(s2));
    assert(le_value(s) == s[0] as nat + 256 * le_value(s1));
    assert(s[0] == data[off] && s1[0] == data[off + 1] && s2[0] == data[off + 2] && s3[0] == data[
        off + 3]);
}

/// In a 64-bit image (Elf64_Phdr layout), each program header read has the
/// little-endian fields of its entry: `p_type` (32 bits) at byte 0,
/// `p_flags` (32 bits) at 4, and the 64-bit `p_offset` at 8, `p_vaddr` at
/// 16, `p_filesz` at 32 and `p_memsz` at 40.
pub proof fn law_elf64_program_header_fields(data: Seq<u8>, h: ElfHeader, i: int)
    requires
        0 <= i < h.phnum,
        ph_offset(h, i) + 56 <= data.len(),
    ensures
        phs_at(data, h, Xlen::Rv64)[i].p_type == word32_at(data, ph_offset(h, i)),
        phs_at(data, h, Xlen::Rv64)[i].flags == word32_at(data, ph_offset(h, i) + 4),
        phs_at(data, h, Xlen::Rv64)[i].offset == word64_at(data, ph_offset(h, i) + 8),
        phs_at(data, h, Xlen::Rv64)[i].vaddr == word64_at(data, ph_offset(h, i) + 16),
        phs_at(data, h, Xlen::Rv64)[i].filesz == word64_at(data, ph_offset(h, i) + 32),
        phs_at(data, h, Xlen::Rv64)[i].memsz == word64_at(data, ph_offset(h, i) + 40),
{
    reveal(ph_at);
    let o = ph_offset(h, i);
    assert(o >= 0) by (nonlinear_arith)
        requires
            o == h.phoff + i * h.phentsize,
            i >= 0,
    ;
    lemma_le_four_bytes(data, o);
    lemma_le_four_bytes(data, o + 4);
    lemma_le_eight_bytes(data, o + 8);
    lemma_le_eight_bytes(data, o + 16);
    lemma_le_eight_bytes(data, o + 32);
    lemma_le_eight_bytes(data, o + 40);
}

/// The little-endian 16-bit word made of the two bytes of `data` at `off`.
pub open spec fn word16_at(data: Seq<u8>, off: int) -> int {
    data[off] + 0x100 * data[off + 1]
}

/// Two little-endian bytes read as a number make the 16-bit word they spell.
proof fn lemma_le_two_bytes(data: Seq<u8>, off: int)
    requires
        0 <= off,
        off + 2 <= data.len(),
    ensures
        le(data, off, 2) == word16_at(data, off),
{
    let s = data.subrange(off, off + 2);
    let s1 = s.drop_first();
    let s2 = s1.drop_first();
    assert(s2.len() == 0);
    assert(le_value(s1) == s1[0] as nat + 256 * le_value(s2));
    assert(le_value(s) == s[0] as nat + 256 * le_value(s1));
    assert(s[0] == data[off] && s1[0] == data[off + 1]);
}

/// The ELF header fields are the little-endian words at their places in
/// the Elf32_Ehdr or Elf64_Ehdr layout: `e_entry`, `e_phoff` and `e_shoff`
/// (32-bit at 24, 28, 32; 64-bit at 24, 32, 40), then the 16-bit
/// `e_phentsize`, `e_phnum`, `e_shentsize`, `e_shnum` and `e_shstrndx`
/// (at 42..52 for 32-bit images, 54..64 for 64-bit ones).
pub proof fn law_elf_header_fields(data: Seq<u8>, xlen: Xlen)
    requires
        data.len() >= 64,
    ensures
        xlen == Xlen::Rv32 ==> {
            let h = header_at(data, xlen);
            &&& h.entry == word32_at(data, 24)
            &&& h.phoff == word32_at(data, 28)
            &&& h.shoff == word32_at(data, 32)
            &&& h.phentsize == word16_at(data, 42)
            &&& h.phnum == word16_at(data, 44)
            &&& h.shentsize == word16_at(data, 46)
            &&& h.shnum == word16_at(data, 48)
            &&& h.shstrndx == word16_at(data, 50)
        },
        xlen == Xlen::Rv64 ==> {
            let h = header_at(data, xlen);
            &&& h.entry == word64_at(data, 24)
            &&& h.phoff == word64_at(data, 32)
            &&& h.shoff == word64_at(data, 40)
            &&& h.phentsize == word16_at(data, 54)
            &&& h.phnum == word16_at(data, 56)
            &&& h.shentsize == word16_at(data, 58)
            &&& h.shnum == word16_at(data, 60)
            &&& h.shstrndx == word16_at(data, 62)
        },
{
    if xlen == Xlen::Rv32 {
        lemma_le_four_bytes(data, 24);
        lemma_le_four_bytes(data, 28);
        lemma_le_four_bytes(data, 32);
        lemma_le_two_bytes(data, 42);
        lemma_le_two_bytes(data, 44);
        lemma_le_two_bytes(data, 46);
        lemma_le_two_bytes(data, 48);
        lemma_le_two_bytes(data, 50);
    } else {
        lemma_le_eight_bytes(data, 24);
        lemma_le_eight_bytes(data, 32);
        lemma_le_eight_bytes(data, 40);
        lemma_le_two_bytes(data, 54);
        lemma_le_two_bytes(data, 56);
        lemma_le_two_bytes(data, 58);
        lemma_le_two_bytes(data, 60);
        lemma_le_two_bytes(data, 62);
    }
}

/// Each section header read has the little-endian fields of its entry:
/// `sh_name` and `sh_type` (32-bit, at 0 and 4), then `sh_addr`,
/// `sh_offset` and `sh_size` (32-bit at 12, 16, 20 in Elf32_Shdr; 64-bit at
/// 16, 24, 32 in Elf64_Shdr).
pub proof fn law_section_header_fields(data: Seq<u8>, h: ElfHeader, i: int, xlen: Xlen)
    requires
        0 <= i < h.shnum,
        sh_offset(h, i) + sh_size(xlen) <= data.len(),
    ensures
        shs_at(data, h, xlen)[i].name == word32_at(data, sh_offset(h, i)),
        shs_at(data, h, xlen)[i].sh_type == word32_at(data, sh_offset(h, i) + 4),
        xlen == Xlen::Rv32 ==> {
            let s = shs_at(data, h, xlen)[i];
            &&& s.addr == word32_at(data, sh_offset(h, i) + 12)
            &&& s.offset == word32_at(data, sh_offset(h, i) + 16)
            &&& s.size == word32_at(data, sh_offset(h, i) + 20)
        },
        xlen == Xlen::Rv64 ==> {
            let s = shs_at(data, h, xlen)[i];
            &&& s.addr == word64_at(data, sh_offset(h, i) + 16)
            &&& s.offset == word64_at(data, sh_offset(h, i) + 24)
            &&& s.size == word64_at(data, sh_offset(h, i) + 32)
        },
{
    reveal(sh_at);
    let o = sh_offset(h, i);
    assert(o >= 0) by (nonlinear_arith)
        requires
            o == h.shoff + i * h.shentsize,
            i >= 0,
    ;
    lemma_le_four_bytes(data, o);
    lemma_le_four_bytes(data, o + 4);
    if xlen == Xlen::Rv32 {
        lemma_le_four_bytes(data, o + 12);
        lemma_le_four_bytes(data, o + 16);
        lemma_le_four_bytes(data, o + 20);
    } else {
        lemma_le_eight_bytes(data, o + 16);
        lemma_le_eight_bytes(data, o + 24);
        lemma_le_eight_bytes(data, o + 32);
    }
}

} // verus!
