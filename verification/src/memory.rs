//! Memory initialization code generation: `memory.c` with the embedded ELF
//! segment data and the segment table.

use vstd::prelude::*;

use crate::text::{decimal, hex, hex_byte, push_char, push_decimal, push_hex, push_hex_byte, push_str};

verus! {

/// Memory segment information.
#[derive(Clone, Debug)]
pub struct MemorySegment {
    /// Virtual start address.
    pub vaddr: u64,
    /// File size (bytes to load from data).
    pub filesz: usize,
    /// Memory size (total size including BSS).
    pub memsz: usize,
    /// Segment data.
    pub data: Vec<u8>,
}

impl MemorySegment {
    /// Create a memory segment.
    pub fn new(vaddr: u64, filesz: usize, memsz: usize, data: Vec<u8>) -> (r: Self)
        ensures
            r.vaddr == vaddr,
            r.filesz == filesz,
            r.memsz == memsz,
            r.data@ == data@,
    {
        MemorySegment { vaddr, filesz, memsz, data }
    }

    /// Whether the segment has data to embed.
    pub fn has_data(&self) -> (r: bool)
        ensures
            r == (self.data@.len() > 0),
    {
        self.data.len() != 0
    }
}

/// Memory generation configuration.
pub struct MemoryConfig {
    /// Base name for output files.
    pub base_name: String,
    /// Memory segments to embed.
    pub segments: Vec<MemorySegment>,
    /// Memory address bits.
    pub memory_bits: u8,
    /// Initial program break.
    pub initial_brk: u64,
}

impl MemoryConfig {
    /// Create a memory config.
    pub fn new(base_name: &str, segments: Vec<MemorySegment>, memory_bits: u8, initial_brk: u64) -> (r:
        Self)
        ensures
            r.base_name@ == base_name@,
            r.segments@ == segments@,
            r.memory_bits == memory_bits,
            r.initial_brk == initial_brk,
    {
        let mut name = String::new();
        push_str(&mut name, base_name);
        MemoryConfig { base_name: name, segments, memory_bits, initial_brk }
    }
}

/// `0x` and the lowercase hexadecimal digits of `n`.
pub open spec fn alt_hex(n: u64) -> Seq<char> {
    "0x"@ + hex(n as nat)
}

/// The file header: a comment and the includes.
pub open spec fn memory_header(base_name: Seq<char>) -> Seq<char> {
    "/* Embedded ELF memory segments */\n#include \""@ + base_name
        + ".h\"\n#include <sys/mman.h>\n#include <string.h>\n#include <stddef.h>\n\n\n"@
}

/// Start of the segment table.
pub const TABLE_START: &'static str =
    "/* Segment metadata */\ntypedef struct {\n    uint64_t vaddr;\n    uint64_t filesz;\n    uint64_t memsz;\n    const uint8_t* data;\n} Segment;\n\nstatic const Segment segments[] = {\n";

/// Text of byte `k` of segment data: lines of sixteen comma-separated bytes,
/// each line indented and every line but the last ending in a comma.
pub open spec fn byte_piece(data: Seq<u8>, k: int) -> Seq<char> {
    let lead = if k % 16 == 0 {
        "    "@
    } else {
        ", "@
    };
    let tail = if k % 16 == 15 || k == data.len() - 1 {
        if k < data.len() - 1 {
            ",\n"@
        } else {
            "\n"@
        }
    } else {
        Seq::empty()
    };
    lead + hex_byte(data[k]) + tail
}

/// Text of the first `n` bytes of segment data.
pub open spec fn data_text(data: Seq<u8>, n: int) -> Seq<char>
    decreases n,
{
    if n <= 0 {
        Seq::empty()
    } else {
        data_text(data, n - 1) + byte_piece(data, n - 1)
    }
}

/// The comment describing a segment.
pub open spec fn segment_comment(index: int, seg: MemorySegment) -> Seq<char> {
    "/* Segment "@ + decimal(index as nat) + ": "@ + alt_hex(seg.vaddr) + " ("@ + decimal(
        seg.filesz as nat,
    ) + " bytes file, "@ + decimal(seg.memsz as nat) + " bytes mem) */\n"@
}

/// The array holding a segment's data.
pub open spec fn segment_data_text(index: int, seg: MemorySegment) -> Seq<char> {
    segment_comment(index, seg) + "static const uint8_t segment_"@ + decimal(index as nat)
        + "_data[] = {\n"@ + data_text(seg.data@, seg.data@.len() as int) + "};\n\n"@
}

/// The array of a segment embedded from its binary file.
pub open spec fn segment_embed_text(index: int, seg: MemorySegment) -> Seq<char> {
    segment_comment(index, seg) + "static const uint8_t segment_"@ + decimal(index as nat)
        + "_data[] = {\n    #embed \"segment_"@ + decimal(index as nat) + ".bin\"\n};\n\n\n"@
}

/// One row of the segment table.
pub open spec fn table_row(index: int, seg: MemorySegment) -> Seq<char> {
    let data_ptr = if seg.data@.len() > 0 {
        "segment_"@ + decimal(index as nat) + "_data"@
    } else {
        "nullptr"@
    };
    "    { "@ + alt_hex(seg.vaddr) + ", "@ + decimal(seg.filesz as nat) + ", "@ + decimal(
        seg.memsz as nat,
    ) + ", "@ + data_ptr + " },\n"@
}

/// The data arrays of the first `n` segments (those with data), inline or embedded.
pub open spec fn data_arrays(segs: Seq<MemorySegment>, n: int, embed: bool) -> Seq<char>
    decreases n,
{
    if n <= 0 {
        Seq::empty()
    } else {
        let seg = segs[n - 1];
        let piece = if seg.data@.len() > 0 {
            if embed {
                segment_embed_text(n - 1, seg)
            } else {
                segment_data_text(n - 1, seg)
            }
        } else {
            Seq::empty()
        };
        data_arrays(segs, n - 1, embed) + piece
    }
}

/// The rows of the first `n` segments.
pub open spec fn table_rows(segs: Seq<MemorySegment>, n: int) -> Seq<char>
    decreases n,
{
    if n <= 0 {
        Seq::empty()
    } else {
        table_rows(segs, n - 1) + table_row(n - 1, segs[n - 1])
    }
}

/// The whole `memory.c` text.
pub open spec fn memory_file(cfg: MemoryConfig, embed: bool) -> Seq<char> {
    let segs = cfg.segments@;
    memory_header(cfg.base_name@) + data_arrays(segs, segs.len() as int, embed) + TABLE_START@
        + table_rows(segs, segs.len() as int) + "};\n\n"@
}

fn push_memory_header(s: &mut String, base_name: &str)
    ensures
        final(s)@ == old(s)@ + memory_header(base_name@),
{
    let ghost start = s@;
    push_str(s, "/* Embedded ELF memory segments */\n#include \"");
    push_str(s, base_name);
    push_str(s, ".h\"\n#include <sys/mman.h>\n#include <string.h>\n#include <stddef.h>\n\n\n");
    assert(s@ =~= start + memory_header(base_name@));
}

/// Append `0x` and the lowercase hexadecimal digits of `n`.
fn push_alt_hex(s: &mut String, n: u64)
    ensures
        final(s)@ == old(s)@ + alt_hex(n),
{
    let ghost start = s@;
    push_str(s, "0x");
    push_hex(s, n);
    assert(s@ =~= start + alt_hex(n));
}

fn push_segment_comment(s: &mut String, index: usize, seg: &MemorySegment)
    ensures
        final(s)@ == old(s)@ + segment_comment(index as int, *seg),
{
    let ghost start = s@;
    push_str(s, "/* Segment ");
    push_decimal(s, index as u64);
    push_str(s, ": ");
    push_alt_hex(s, seg.vaddr);
    push_str(s, " (");
    push_decimal(s, seg.filesz as u64);
    push_str(s, " bytes file, ");
    push_decimal(s, seg.memsz as u64);
    push_str(s, " bytes mem) */\n");
    assert(s@ =~= start + segment_comment(index as int, *seg));
}

/// Append the bytes of segment data, sixteen to a line.
fn push_data_lines(s: &mut String, data: &Vec<u8>)
    ensures
        final(s)@ == old(s)@ + data_text(data@, data@.len() as int),
{
    let ghost start = s@;
    let len = data.len();
    let mut k: usize = 0;
    while k < len
        invariant
            len == data@.len(),
            k <= len,
            s@ == start + data_text(data@, k as int),
        decreases len - k,
    {
        let ghost before = s@;
        if k % 16 == 0 {
            push_str(s, "    ");
        } else {
            push_str(s, ", ");
        }
        push_hex_byte(s, data[k]);
        if k % 16 == 15 || k == len - 1 {
            if k < len - 1 {
                push_char(s, ',');
            }
            push_char(s, '\n');
        }
        proof {
            let piece = byte_piece(data@, k as int);
            assert(s@ =~= before + piece) by {
                reveal_strlit(",\n");
                reveal_strlit("\n");
            }
            assert(start + data_text(data@, k + 1) =~= start + data_text(data@, k as int) + piece);
        }
        k += 1;
    }
}

/// The byte array holding one segment's data.
fn gen_segment_data(index: usize, seg: &MemorySegment) -> (r: String)
    ensures
        r@ == segment_data_text(index as int, *seg),
{
    let mut s = String::new();
    push_segment_comment(&mut s, index, seg);
    push_str(&mut s, "static const uint8_t segment_");
    push_decimal(&mut s, index as u64);
    push_str(&mut s, "_data[] = {\n");
    push_data_lines(&mut s, &seg.data);
    push_str(&mut s, "};\n\n");
    assert(s@ =~= segment_data_text(index as int, *seg));
    s
}

fn push_segment_embed(s: &mut String, index: usize, seg: &MemorySegment)
    ensures
        final(s)@ == old(s)@ + segment_embed_text(index as int, *seg),
{
    let ghost start = s@;
    push_segment_comment(s, index, seg);
    push_str(s, "static const uint8_t segment_");
    push_decimal(s, index as u64);
    push_str(s, "_data[] = {\n    #embed \"segment_");
    push_decimal(s, index as u64);
    push_str(s, ".bin\"\n};\n\n\n");
    assert(s@ =~= start + segment_embed_text(index as int, *seg));
}

fn push_table_row(s: &mut String, index: usize, seg: &MemorySegment)
    ensures
        final(s)@ == old(s)@ + table_row(index as int, *seg),
{
    let ghost start = s@;
    push_str(s, "    { ");
    push_alt_hex(s, seg.vaddr);
    push_str(s, ", ");
    push_decimal(s, seg.filesz as u64);
    push_str(s, ", ");
    push_decimal(s, seg.memsz as u64);
    push_str(s, ", ");
    if seg.has_data() {
        push_str(s, "segment_");
        push_decimal(s, index as u64);
        push_str(s, "_data");
    } else {
        push_str(s, "nullptr");
    }
    push_str(s, " },\n");
    assert(s@ =~= start + table_row(index as int, *seg));
}

/// Generate `memory.c`, with the data inline or through C23 `#embed`.
fn gen_memory(cfg: &MemoryConfig, embed: bool) -> (r: String)
    ensures
        r@ == memory_file(*cfg, embed),
{
    let mut s = String::new();
    push_memory_header(&mut s, cfg.base_name.as_str());
    let ghost head = s@;
    let n = cfg.segments.len();
    let mut i: usize = 0;
    while i < n
        invariant
            n == cfg.segments@.len(),
            i <= n,
            s@ == head + data_arrays(cfg.segments@, i as int, embed),
        decreases n - i,
    {
        let seg = &cfg.segments[i];
        if seg.has_data() {
            if embed {
                push_segment_embed(&mut s, i, seg);
            } else {
                let text = gen_segment_data(i, seg);
                push_str(&mut s, text.as_str());
            }
        }
        proof {
            assert(head + data_arrays(cfg.segments@, i + 1, embed) =~= head + data_arrays(
                cfg.segments@,
                i as int,
                embed,
            ) + (if seg.data@.len() > 0 {
                if embed {
                    segment_embed_text(i as int, *seg)
                } else {
                    segment_data_text(i as int, *seg)
                }
            } else {
                Seq::<char>::empty()
            }));
        }
        i += 1;
    }
    push_str(&mut s, TABLE_START);
    let ghost table = s@;
    let mut j: usize = 0;
    while j < n
        invariant
            n == cfg.segments@.len(),
            j <= n,
            s@ == table + table_rows(cfg.segments@, j as int),
        decreases n - j,
    {
        push_table_row(&mut s, j, &cfg.segments[j]);
        proof {
            assert(table + table_rows(cfg.segments@, j + 1) =~= table + table_rows(
                cfg.segments@,
                j as int,
            ) + table_row(j as int, cfg.segments@[j as int]));
        }
        j += 1;
    }
    push_str(&mut s, "};\n\n");
    assert(s@ =~= memory_file(*cfg, embed));
    s
}

/// Generate `memory.c` with the segment data written out as byte arrays.
pub fn gen_memory_file(cfg: &MemoryConfig) -> (r: String)
    ensures
        r@ == memory_file(*cfg, false),
{
    gen_memory(cfg, false)
}

/// Generate `memory.c` with the segment data taken from binary files by C23 `#embed`.
pub fn gen_memory_file_with_embed(cfg: &MemoryConfig) -> (r: String)
    ensures
        r@ == memory_file(*cfg, true),
{
    gen_memory(cfg, true)
}

/// The binary files for `#embed`: `segment_<i>.bin` with the data of each
/// segment that has data, among the first `n` segments.
pub open spec fn segment_bins(segs: Seq<MemorySegment>, n: int) -> Seq<(Seq<char>, Seq<u8>)>
    decreases n,
{
    if n <= 0 {
        Seq::empty()
    } else {
        let r = segment_bins(segs, n - 1);
        if segs[n - 1].data@.len() > 0 {
            r.push(("segment_"@ + decimal((n - 1) as nat) + ".bin"@, segs[n - 1].data@))
        } else {
            r
        }
    }
}

/// The binary segment files for C23 `#embed`, as (file name, data) pairs.
pub fn gen_segment_bins(cfg: &MemoryConfig) -> (r: Vec<(String, Vec<u8>)>)
    ensures
        r@.map_values(|p: (String, Vec<u8>)| (p.0@, p.1@)) == segment_bins(
            cfg.segments@,
            cfg.segments@.len() as int,
        ),
{
    let mut out: Vec<(String, Vec<u8>)> = Vec::new();
    let n = cfg.segments.len();
    let mut i: usize = 0;
    while i < n
        invariant
            n == cfg.segments@.len(),
            i <= n,
            out@.map_values(|p: (String, Vec<u8>)| (p.0@, p.1@)) == segment_bins(
                cfg.segments@,
                i as int,
            ),
        decreases n - i,
    {
        let seg = &cfg.segments[i];
        if seg.has_data() {
            let mut name = String::new();
            push_str(&mut name, "segment_");
            push_decimal(&mut name, i as u64);
            push_str(&mut name, ".bin");
            let data = seg.data.clone();
            let ghost before = out@;
            out.push((name, data));
            proof {
                assert(data@ =~= seg.data@);
                assert(out@.map_values(|p: (String, Vec<u8>)| (p.0@, p.1@)) =~= before.map_values(
                    |p: (String, Vec<u8>)| (p.0@, p.1@),
                ).push((name@, data@)));
            }
        }
        i += 1;
    }
    out
}

} // verus!
