//! ELF image: the loadable segments of an ELF file, checked and copied out.

use vstd::prelude::*;

use crate::config::Xlen;
use crate::elf::defs::{
    ElfError, LoadedSection, ProgramHeader, Symbol, EF_RISCV_RVC, EF_RISCV_RVE, MAX_SEGMENTS, PF_R,
    PF_W, PF_X, PT_LOAD, SHF_EXECINSTR,
};
use crate::bytes::le_value;
use crate::elf::defs::{ELF_CLASS_32, ELF_CLASS_64, ELF_MAGIC};
use crate::elf::file::{
    elf_xlen_result, find_named, first_named, header_at, le, loaded_sections, parse_error, phs_at,
    section_views, shs_at, strtab_of, symbol_views, symbols_of, xlen_bits, ElfFile,
};

verus! {

/// A memory segment with virtual address range and file data.
///
/// `data` holds only the file bytes; bytes from `data.len()` up to the
/// segment's memory size are zero-initialized (BSS).
#[derive(Clone, Debug)]
pub struct MemorySegment {
    pub virtual_start: u64,
    pub virtual_end: u64,
    pub data: Vec<u8>,
    pub flags: u32,
}

impl View for MemorySegment {
    type V = (u64, u64, Seq<u8>, u32);

    open spec fn view(&self) -> Self::V {
        (self.virtual_start, self.virtual_end, self.data@, self.flags)
    }
}

impl MemorySegment {
    /// Size of file data (non-BSS).
    pub fn filesz(&self) -> (r: u64)
        ensures
            r == self.data@.len(),
    {
        self.data.len() as u64
    }

    /// Total memory size including BSS.
    pub fn memsz(&self) -> (r: u64)
        requires
            self.virtual_start <= self.virtual_end,
        ensures
            r == self.virtual_end - self.virtual_start,
    {
        self.virtual_end - self.virtual_start
    }

    /// Size of the zero-filled portion.
    pub fn bss_size(&self) -> (r: u64)
        requires
            self.virtual_start + self.data@.len() <= self.virtual_end,
        ensures
            r == self.virtual_end - self.virtual_start - self.data@.len(),
    {
        self.memsz() - self.filesz()
    }

    /// Whether the segment is read-only (no write flag).
    pub fn is_readonly(&self) -> (r: bool)
        ensures
            r == (self.flags & PF_W == 0),
    {
        self.flags & PF_W == 0
    }

    /// Whether the segment is executable (`PF_X` flag).
    pub fn is_executable(&self) -> (r: bool)
        ensures
            r == (self.flags & PF_X != 0),
    {
        self.flags & PF_X != 0
    }

    /// Whether an executable section overlaps the segment (a fallback for
    /// linker scripts that leave `PF_X` unset).
    pub fn has_executable_sections(&self, sections: &[LoadedSection]) -> (r: bool)
        requires
            forall|i: int| 0 <= i < sections@.len() ==> sections@[i].addr + sections@[i].size
                <= u64::MAX,
        ensures
            r == exists|i: int|
                0 <= i < sections@.len() && #[trigger] overlaps_exec(*self, sections@[i]),
    {
        let mut k: usize = 0;
        while k < sections.len()
            invariant
                k <= sections@.len(),
                forall|i: int| 0 <= i < sections@.len() ==> sections@[i].addr + sections@[i].size
                    <= u64::MAX,
                forall|i: int| 0 <= i < k ==> !#[trigger] overlaps_exec(*self, sections@[i]),
            decreases sections.len() - k,
        {
            let section = &sections[k];
            let section_start = section.addr;
            let section_end = section_start + section.size;
            if section_start < self.virtual_end && section_end > self.virtual_start {
                if section.flags & SHF_EXECINSTR != 0 {
                    assert(overlaps_exec(*self, sections@[k as int]));
                    return true;
                }
            }
            k += 1;
        }
        false
    }
}

/// A section overlaps the segment's range and holds instructions.
pub open spec fn overlaps_exec(seg: MemorySegment, s: LoadedSection) -> bool {
    &&& s.addr < seg.virtual_end
    &&& s.addr + s.size > seg.virtual_start
    &&& s.flags & SHF_EXECINSTR != 0
}

/// Whether a program header is loaded (a LOAD segment taking memory).
pub open spec fn is_loadable(p: ProgramHeader) -> bool {
    p.p_type == PT_LOAD && p.memsz > 0
}

/// The loaded program headers, in order.
pub open spec fn loadable(phs: Seq<ProgramHeader>) -> Seq<ProgramHeader>
    decreases phs.len(),
{
    if phs.len() == 0 {
        Seq::empty()
    } else if is_loadable(phs.last()) {
        loadable(phs.drop_last()).push(phs.last())
    } else {
        loadable(phs.drop_last())
    }
}

/// What is wrong with a loaded program header, if anything.
pub open spec fn header_error(p: ProgramHeader, file_len: int) -> Option<ElfError> {
    if p.offset > usize::MAX || p.filesz > usize::MAX {
        Some(ElfError::ProgramOutOfBounds)
    } else if p.offset + p.filesz > file_len {
        Some(ElfError::SegmentBeyondFile)
    } else if p.vaddr + p.memsz > u64::MAX {
        Some(ElfError::VirtualAddressOverflow)
    } else {
        None
    }
}

/// The error of the first loaded program header that is wrong.
pub open spec fn first_header_error(phs: Seq<ProgramHeader>, file_len: int) -> Option<ElfError>
    decreases phs.len(),
{
    if phs.len() == 0 {
        None
    } else {
        match first_header_error(phs.drop_last(), file_len) {
            Some(e) => Some(e),
            None => if is_loadable(phs.last()) {
                header_error(phs.last(), file_len)
            } else {
                None
            },
        }
    }
}

/// Two loaded segments share an address.
pub open spec fn ranges_overlap(a: ProgramHeader, b: ProgramHeader) -> bool {
    !(a.vaddr + a.memsz <= b.vaddr || b.vaddr + b.memsz <= a.vaddr)
}

/// Some two of the segments share an address.
pub open spec fn any_overlap(l: Seq<ProgramHeader>) -> bool {
    exists|i: int, j: int| 0 <= i < j < l.len() && #[trigger] ranges_overlap(l[i], l[j])
}

/// What checking the program headers gives: the loaded headers, or the error.
pub open spec fn validate_result(phs: Seq<ProgramHeader>, file_len: int) -> Result<
    Seq<ProgramHeader>,
    ElfError,
> {
    match first_header_error(phs, file_len) {
        Some(e) => Err(e),
        None => {
            let l = loadable(phs);
            if l.len() == 0 {
                Err(ElfError::NoLoadableSegments)
            } else if l.len() > MAX_SEGMENTS {
                Err(ElfError::TooManySegments)
            } else if any_overlap(l) {
                Err(ElfError::OverlappingSegments)
            } else {
                Ok(l)
            }
        },
    }
}

/// The memory segment a checked program header loads.
pub open spec fn segment_of(p: ProgramHeader, file: Seq<u8>) -> (u64, u64, Seq<u8>, u32) {
    (
        p.vaddr,
        (p.vaddr + p.memsz) as u64,
        file.subrange(p.offset as int, p.offset + p.filesz),
        p.flags,
    )
}

/// Views of memory segments.
pub open spec fn segment_views(v: Seq<MemorySegment>) -> Seq<(u64, u64, Seq<u8>, u32)> {
    v.map_values(|s: MemorySegment| s@)
}

/// Largest segment end (0 for no segments).
pub open spec fn max_end(segs: Seq<MemorySegment>) -> u64
    decreases segs.len(),
{
    if segs.len() == 0 {
        0
    } else {
        let m = max_end(segs.drop_last());
        if segs.last().virtual_end > m {
            segs.last().virtual_end
        } else {
            m
        }
    }
}

/// Sum of the segments' memory sizes.
pub open spec fn total_memsz(segs: Seq<MemorySegment>) -> int
    decreases segs.len(),
{
    if segs.len() == 0 {
        0
    } else {
        total_memsz(segs.drop_last()) + (segs.last().virtual_end - segs.last().virtual_start)
    }
}

/// ELF image ready for loading into memory.
#[derive(Clone, Debug)]
pub struct ElfImage {
    pub entry_point: u64,
    pub e_flags: u32,
    pub memory_segments: Vec<MemorySegment>,
    pub sections: Vec<LoadedSection>,
    pub symbols: Vec<Symbol>,
}

/// Why parsing a whole image fails, if it does.
pub open spec fn image_error(data: Seq<u8>, xlen: Xlen) -> Option<ElfError> {
    match parse_error(data, xlen) {
        Some(e) => Some(e),
        None => match validate_result(
            phs_at(data, header_at(data, xlen), xlen),
            data.len() as int,
        ) {
            Err(e) => Some(e),
            Ok(_) => None,
        },
    }
}

impl ElfImage {
    /// Parse an ELF image of the given register width from raw bytes.
    pub fn parse(data: &[u8], xlen: Xlen) -> (r: Result<ElfImage, ElfError>)
        ensures
            r is Err <==> image_error(data@, xlen) is Some,
            r matches Err(e) ==> image_error(data@, xlen) == Some(e),
            r matches Ok(img) ==> {
                let h = header_at(data@, xlen);
                let shs = shs_at(data@, h, xlen);
                let l = loadable(phs_at(data@, h, xlen));
                &&& img.entry_point == h.entry
                &&& img.e_flags == h.flags
                &&& segment_views(img.memory_segments@) == l.map_values(
                    |p: ProgramHeader| segment_of(p, data@),
                )
                &&& section_views(img.sections@) == loaded_sections(data@, shs, strtab_of(shs, h))
                &&& symbol_views(img.symbols@) == symbols_of(data@, shs, xlen)
            },
    {
        let elf = match ElfFile::parse(data, xlen) {
            Ok(f) => f,
            Err(e) => {
                return Err(e);
            },
        };
        let kept = match Self::validate_segments(&elf, data) {
            Ok(l) => l,
            Err(e) => {
                return Err(e);
            },
        };
        proof {
            lemma_loadable_fit(elf.program_headers@, data@.len() as int);
        }
        let segments = Self::load_segments(kept.as_slice(), data);
        Ok(ElfImage {
            entry_point: elf.entry_point,
            e_flags: elf.e_flags,
            memory_segments: segments,
            sections: elf.sections,
            symbols: elf.symbols,
        })
    }

    /// Value of the first symbol with the given name.
    pub fn lookup_symbol(&self, name: &str) -> (r: Option<u64>)
        ensures
            r == first_named(self.symbols@, name@, false),
    {
        find_named(self.symbols.as_slice(), name, false)
    }

    /// Value of the first function symbol with the given name.
    pub fn lookup_function(&self, name: &str) -> (r: Option<u64>)
        ensures
            r == first_named(self.symbols@, name@, true),
    {
        find_named(self.symbols.as_slice(), name, true)
    }

    /// An image of raw code (not an ELF file): one executable, readable
    /// segment at the entry point.
    pub fn from_bytecode(bytecode: Vec<u8>, entry_point: u64) -> (r: ElfImage)
        requires
            entry_point + bytecode@.len() <= u64::MAX,
        ensures
            r.entry_point == entry_point,
            r.e_flags == 0,
            r.memory_segments@.len() == 1,
            r.memory_segments@[0]@ == (
                entry_point,
                (entry_point + bytecode@.len()) as u64,
                bytecode@,
                PF_X | PF_R,
            ),
            r.sections@.len() == 0,
            r.symbols@.len() == 0,
    {
        let end = entry_point + bytecode.len() as u64;
        let segment = MemorySegment {
            virtual_start: entry_point,
            virtual_end: end,
            data: bytecode,
            flags: PF_X | PF_R,
        };
        let mut memory_segments: Vec<MemorySegment> = Vec::new();
        memory_segments.push(segment);
        ElfImage {
            entry_point,
            e_flags: 0,
            memory_segments,
            sections: Vec::new(),
            symbols: Vec::new(),
        }
    }

    /// Whether the ELF uses the E (embedded) extension with 16 registers.
    pub fn is_rve(&self) -> (r: bool)
        ensures
            r == (self.e_flags & EF_RISCV_RVE != 0),
    {
        self.e_flags & EF_RISCV_RVE != 0
    }

    /// Whether the ELF uses the C (compressed) extension.
    pub fn is_rvc(&self) -> (r: bool)
        ensures
            r == (self.e_flags & EF_RISCV_RVC != 0),
    {
        self.e_flags & EF_RISCV_RVC != 0
    }

    /// Initial program break: the end of the highest memory segment.
    pub fn get_initial_program_break(&self) -> (r: u64)
        ensures
            r == max_end(self.memory_segments@),
    {
        let mut max: u64 = 0;
        let mut k: usize = 0;
        while k < self.memory_segments.len()
            invariant
                k <= self.memory_segments@.len(),
                max == max_end(self.memory_segments@.take(k as int)),
            decreases self.memory_segments.len() - k,
        {
            proof {
                assert(self.memory_segments@.take(k + 1).drop_last() =~= self.memory_segments@.take(
                    k as int,
                ));
            }
            if self.memory_segments[k].virtual_end > max {
                max = self.memory_segments[k].virtual_end;
            }
            k += 1;
        }
        proof {
            assert(self.memory_segments@.take(k as int) =~= self.memory_segments@);
        }
        max
    }

    /// Total loaded size: the sum of the segments' memory sizes.
    pub fn total_size(&self) -> (r: u64)
        requires
            forall|i: int|
                0 <= i < self.memory_segments@.len() ==> self.memory_segments@[i].virtual_start
                    <= self.memory_segments@[i].virtual_end,
            total_memsz(self.memory_segments@) <= u64::MAX,
        ensures
            r == total_memsz(self.memory_segments@),
    {
        let mut total: u64 = 0;
        let mut k: usize = 0;
        while k < self.memory_segments.len()
            invariant
                k <= self.memory_segments@.len(),
                forall|i: int|
                    0 <= i < self.memory_segments@.len() ==> self.memory_segments@[i].virtual_start
                        <= self.memory_segments@[i].virtual_end,
                total_memsz(self.memory_segments@) <= u64::MAX,
                total == total_memsz(self.memory_segments@.take(k as int)),
            decreases self.memory_segments.len() - k,
        {
            proof {
                assert(self.memory_segments@.take(k + 1).drop_last() =~= self.memory_segments@.take(
                    k as int,
                ));
                lemma_total_memsz_prefix(self.memory_segments@, k + 1);
            }
            total = total + self.memory_segments[k].memsz();
            k += 1;
        }
        proof {
            assert(self.memory_segments@.take(k as int) =~= self.memory_segments@);
        }
        total
    }

    /// Check the program headers: the loaded ones must lie in the file, not
    /// overflow the address space, be between one and `MAX_SEGMENTS`, and not
    /// overlap.
    fn validate_segments(elf: &ElfFile, file_data: &[u8]) -> (r: Result<
        Vec<ProgramHeader>,
        ElfError,
    >)
        ensures
            match r {
                Ok(v) => validate_result(elf.program_headers@, file_data@.len() as int) == Ok::<
                    Seq<ProgramHeader>,
                    ElfError,
                >(v@),
                Err(e) => validate_result(elf.program_headers@, file_data@.len() as int) == Err::<
                    Seq<ProgramHeader>,
                    ElfError,
                >(e),
            },
    {
        let phs = &elf.program_headers;
        let ghost flen = file_data@.len() as int;
        let mut kept: Vec<ProgramHeader> = Vec::new();
        let mut k: usize = 0;
        while k < phs.len()
            invariant
                k <= phs@.len(),
                phs@ == elf.program_headers@,
                flen == file_data@.len(),
                first_header_error(phs@.take(k as int), flen) is None,
                kept@ == loadable(phs@.take(k as int)),
            decreases phs.len() - k,
        {
            let phdr = phs[k];
            proof {
                assert(phs@.take(k + 1).drop_last() =~= phs@.take(k as int));
                assert(phs@.take(k + 1).last() == phdr);
            }
            if phdr.p_type == PT_LOAD && phdr.memsz > 0 {
                if phdr.offset > usize::MAX as u64 || phdr.filesz > usize::MAX as u64 {
                    proof {
                        assert(header_error(phdr, flen) == Some(ElfError::ProgramOutOfBounds));
                        assert(first_header_error(phs@.take(k + 1), flen) == Some(
                            ElfError::ProgramOutOfBounds,
                        ));
                        lemma_first_error_stable(phs@, k + 1, phs@.len() as int, flen);
                        assert(phs@.take(phs@.len() as int) =~= phs@);
                    }
                    return Err(ElfError::ProgramOutOfBounds);
                }
                let offset = phdr.offset as usize;
                let filesz = phdr.filesz as usize;
                if offset > file_data.len() || filesz > file_data.len() - offset {
                    proof {
                        assert(header_error(phdr, flen) == Some(ElfError::SegmentBeyondFile));
                        assert(first_header_error(phs@.take(k + 1), flen) == Some(
                            ElfError::SegmentBeyondFile,
                        ));
                        lemma_first_error_stable(phs@, k + 1, phs@.len() as int, flen);
                        assert(phs@.take(phs@.len() as int) =~= phs@);
                    }
                    return Err(ElfError::SegmentBeyondFile);
                }
                if phdr.vaddr.checked_add(phdr.memsz).is_none() {
                    proof {
                        lemma_first_error_stable(phs@, k + 1, phs@.len() as int, flen);
                        assert(phs@.take(phs@.len() as int) =~= phs@);
                    }
                    return Err(ElfError::VirtualAddressOverflow);
                }
                kept.push(phdr);
            }
            k += 1;
        }
        proof {
            assert(phs@.take(k as int) =~= phs@);
        }
        if kept.len() == 0 {
            return Err(ElfError::NoLoadableSegments);
        }
        if kept.len() > MAX_SEGMENTS {
            return Err(ElfError::TooManySegments);
        }
        proof {
            lemma_loadable_fit(phs@, flen);
        }
        let mut i: usize = 0;
        while i < kept.len()
            invariant
                i <= kept@.len(),
                0 < kept@.len() <= MAX_SEGMENTS,
                flen == file_data@.len(),
                phs@ == elf.program_headers@,
                first_header_error(phs@, flen) is None,
                kept@ == loadable(phs@),
                forall|t: int| 0 <= t < kept@.len() ==> kept@[t].vaddr + kept@[t].memsz <= u64::MAX,
                forall|a: int, b: int|
                    0 <= a < i && a < b < kept@.len() ==> !#[trigger] ranges_overlap(
                        kept@[a],
                        kept@[b],
                    ),
            decreases kept.len() - i,
        {
            let start_i = kept[i].vaddr;
            let end_i = start_i + kept[i].memsz;
            let mut j: usize = i + 1;
            while j < kept.len()
                invariant
                    i < j <= kept@.len(),
                    0 < kept@.len() <= MAX_SEGMENTS,
                    flen == file_data@.len(),
                    phs@ == elf.program_headers@,
                    first_header_error(phs@, flen) is None,
                    kept@ == loadable(phs@),
                    start_i == kept@[i as int].vaddr,
                    end_i == kept@[i as int].vaddr + kept@[i as int].memsz,
                    forall|t: int| 0 <= t < kept@.len() ==> kept@[t].vaddr + kept@[t].memsz <= u64::MAX,
                    forall|b: int|
                        i < b < j ==> !#[trigger] ranges_overlap(kept@[i as int], kept@[b]),
                decreases kept.len() - j,
            {
                let start_j = kept[j].vaddr;
                let end_j = start_j + kept[j].memsz;
                if !(end_i <= start_j || end_j <= start_i) {
                    assert(ranges_overlap(kept@[i as int], kept@[j as int]));
                    assert(any_overlap(kept@));
                    return Err(ElfError::OverlappingSegments);
                }
                j += 1;
            }
            i += 1;
        }
        assert(!any_overlap(kept@));
        Ok(kept)
    }

    /// Copy out the file data of the checked program headers.
    fn load_segments(program_headers: &[ProgramHeader], file_data: &[u8]) -> (r: Vec<
        MemorySegment,
    >)
        requires
            forall|i: int|
                0 <= i < program_headers@.len() ==> header_error(
                    #[trigger] program_headers@[i],
                    file_data@.len() as int,
                ) is None,
        ensures
            segment_views(r@) == program_headers@.map_values(
                |p: ProgramHeader| segment_of(p, file_data@),
            ),
    {
        let mut segments: Vec<MemorySegment> = Vec::new();
        let mut k: usize = 0;
        while k < program_headers.len()
            invariant
                k <= program_headers@.len(),
                forall|i: int|
                    0 <= i < program_headers@.len() ==> header_error(
                        #[trigger] program_headers@[i],
                        file_data@.len() as int,
                    ) is None,
                segment_views(segments@) == program_headers@.take(k as int).map_values(
                    |p: ProgramHeader| segment_of(p, file_data@),
                ),
            decreases program_headers.len() - k,
        {
            let phdr = program_headers[k];
            assert(header_error(program_headers@[k as int], file_data@.len() as int) is None);
            let flen = file_data.len();
            let offset = phdr.offset as usize;
            let filesz = phdr.filesz as usize;
            let data = copy_range(file_data, offset, offset + filesz);
            let seg = MemorySegment {
                virtual_start: phdr.vaddr,
                virtual_end: phdr.vaddr + phdr.memsz,
                data,
                flags: phdr.flags,
            };
            let ghost before = segments@;
            segments.push(seg);
            proof {
                assert(segments@ =~= before.push(seg));
                assert(program_headers@.take(k + 1) =~= program_headers@.take(k as int).push(phdr));
                assert(segment_views(segments@) =~= segment_views(before).push(seg@));
                assert(program_headers@.take(k + 1).map_values(
                    |p: ProgramHeader| segment_of(p, file_data@),
                ) =~= program_headers@.take(k as int).map_values(
                    |p: ProgramHeader| segment_of(p, file_data@),
                ).push(segment_of(phdr, file_data@)));
            }
            k += 1;
        }
        proof {
            assert(program_headers@.take(k as int) =~= program_headers@);
        }
        segments
    }
}

/// A copy of `data[start..end]`.
pub fn copy_range(data: &[u8], start: usize, end: usize) -> (r: Vec<u8>)
    requires
        start <= end <= data@.len(),
    ensures
        r@ == data@.subrange(start as int, end as int),
{
    let mut out: Vec<u8> = Vec::new();
    let mut i: usize = start;
    while i < end
        invariant
            start <= i <= end <= data@.len(),
            out@ == data@.subrange(start as int, i as int),
        decreases end - i,
    {
        out.push(data[i]);
        assert(data@.subrange(start as int, i + 1) =~= data@.subrange(start as int, i as int).push(
            data@[i as int],
        ));
        i += 1;
    }
    out
}

proof fn lemma_total_memsz_prefix(segs: Seq<MemorySegment>, k: int)
    requires
        0 <= k <= segs.len(),
        forall|i: int| 0 <= i < segs.len() ==> segs[i].virtual_start <= segs[i].virtual_end,
    ensures
        total_memsz(segs.take(k)) <= total_memsz(segs),
    decreases segs.len(),
{
    if k < segs.len() {
        assert(segs.drop_last().take(k) =~= segs.take(k));
        lemma_total_memsz_prefix(segs.drop_last(), k);
    } else {
        assert(segs.take(k) =~= segs);
    }
}

proof fn lemma_first_error_stable(phs: Seq<ProgramHeader>, a: int, b: int, flen: int)
    requires
        0 <= a <= b <= phs.len(),
        first_header_error(phs.take(a), flen) is Some,
    ensures
        first_header_error(phs.take(b), flen) == first_header_error(phs.take(a), flen),
    decreases b - a,
{
    if a < b {
        lemma_first_error_stable(phs, a, b - 1, flen);
        assert(phs.take(b).drop_last() =~= phs.take(b - 1));
    }
}

/// Without a header error, every loaded header fits the file and the address space.
proof fn lemma_loadable_fit(phs: Seq<ProgramHeader>, flen: int)
    requires
        first_header_error(phs, flen) is None,
    ensures
        forall|t: int|
            0 <= t < loadable(phs).len() ==> header_error(#[trigger] loadable(phs)[t], flen) is None,
        forall|t: int|
            0 <= t < loadable(phs).len() ==> #[trigger] loadable(phs)[t].vaddr + loadable(phs)[t].memsz
                <= u64::MAX,
    decreases phs.len(),
{
    if phs.len() > 0 {
        lemma_loadable_fit(phs.drop_last(), flen);
    }
}

/// A file that parses also passes the identification peek, with the same
/// register width, when its class byte is one of the two ELF classes.
pub proof fn law_parse_agrees_with_peek(data: Seq<u8>, xlen: Xlen)
    requires
        parse_error(data, xlen) is None,
        data[4] == ELF_CLASS_32 || data[4] == ELF_CLASS_64,
    ensures
        elf_xlen_result(data) == Ok::<u8, ElfError>(xlen_bits(xlen)),
{
    let h = header_at(data, xlen);
    assert(le(data, 0, 4) == ELF_MAGIC);
    lemma_magic_bytes(data);
    assert(h.class == data[4]);
}

/// The four bytes that read as the ELF magic number.
proof fn lemma_magic_bytes(data: Seq<u8>)
    requires
        data.len() >= 4,
        le(data, 0, 4) == ELF_MAGIC,
    ensures
        data[0] == 0x7F && data[1] == 0x45 && data[2] == 0x4C && data[3] == 0x46,
{
    let s = data.subrange(0, 4);
    reveal_with_fuel(le_value, 5);
    assert(s.drop_first().drop_first().drop_first().drop_first().len() == 0);
    assert(s[0] == data[0] && s[1] == data[1] && s[2] == data[2] && s[3] == data[3]);
    assert(s.drop_first()[0] == data[1]);
    assert(s.drop_first().drop_first()[0] == data[2]);
    assert(s.drop_first().drop_first().drop_first()[0] == data[3]);
    let (b0, b1, b2, b3) = (data[0] as int, data[1] as int, data[2] as int, data[3] as int);
    assert(b0 + 256 * (b1 + 256 * (b2 + 256 * b3)) == 0x464C457F);
}

/// The segments of a parsed image are the loaded program headers' file
/// ranges: between one and `MAX_SEGMENTS` of them, each fitting the file and
/// the address space, no two sharing an address.
pub proof fn law_image_segments_disjoint(data: Seq<u8>, xlen: Xlen)
    requires
        image_error(data, xlen) is None,
    ensures
        ({
            let l = loadable(phs_at(data, header_at(data, xlen), xlen));
            &&& 1 <= l.len() <= MAX_SEGMENTS
            &&& forall|i: int|
                0 <= i < l.len() ==> #[trigger] l[i].offset + l[i].filesz <= data.len()
                    && l[i].vaddr + l[i].memsz <= u64::MAX
            &&& forall|i: int, j: int| 0 <= i < j < l.len() ==> !ranges_overlap(l[i], l[j])
        }),
{
    let phs = phs_at(data, header_at(data, xlen), xlen);
    lemma_loadable_fit(phs, data.len() as int);
    let l = loadable(phs);
    assert forall|i: int| 0 <= i < l.len() implies #[trigger] l[i].offset + l[i].filesz
        <= data.len() && l[i].vaddr + l[i].memsz <= u64::MAX by {
        assert(header_error(l[i], data.len() as int) is None);
    }
    assert forall|i: int, j: int| 0 <= i < j < l.len() implies !ranges_overlap(l[i], l[j]) by {
        if ranges_overlap(l[i], l[j]) {
            assert(any_overlap(l));
        }
    }
}

/// The memory segment a program header loads spans `p_memsz` bytes from
/// `p_vaddr` and holds the `p_filesz` bytes of the file at `p_offset`; the
/// rest of its span, when `p_memsz` exceeds `p_filesz`, is the zero-filled
/// BSS.
pub proof fn law_segment_spans_memsz(p: ProgramHeader, file: Seq<u8>)
    requires
        p.offset + p.filesz <= file.len(),
        p.vaddr + p.memsz <= u64::MAX,
    ensures
        segment_of(p, file).0 == p.vaddr,
        segment_of(p, file).1 - segment_of(p, file).0 == p.memsz,
        segment_of(p, file).2.len() == p.filesz,
        forall|k: int| 0 <= k < p.filesz ==> #[trigger] segment_of(p, file).2[k] == file[p.offset + k],
{
}

} // verus!
