//! Core emission helpers of the ARM64 backend: immediates, register access,
//! address translation, instret counting and the differential tracer.

use vstd::prelude::*;

use super::{label_name, line, mem_op, Arm64Emitter};
use crate::c_config::TracerKind;
use crate::config::{AddressMode, InstretMode, Xlen};
use crate::layout::RvStateLayout;
use crate::registers::{
    hot_slot, last_index, lemma_available_wide, lemma_last_index_bound, slot_name, COLD_CACHE,
    HOT_REG_SLOTS, INSTRET, STATE_PTR,
};
use crate::text::{decimal, push_char, push_decimal, push_str, str_chars, str_eq, string_of};
use vstd::seq_lib::lemma_concat_associative;

verus! {

/// Number of temp slots on the stack for IR temporaries.
pub const TEMP_SLOTS: usize = 8;

/// Bytes per temp slot (8 for alignment, also for RV32).
pub const TEMP_SLOT_BYTES: usize = 8;

/// Total temp stack bytes.
pub const TEMP_STACK_BYTES: usize = 64;

/// Whether a register name is a 32-bit (`w`) register.
pub open spec fn is_w_reg(dest: Seq<char>) -> bool {
    dest.len() > 0 && dest[0] == 'w'
}

/// `value` with the bits at and above `s` cleared.
pub open spec fn low_bits(value: u64, s: u64) -> u64 {
    if s >= 64 {
        value
    } else {
        value & !(0xFFFF_FFFF_FFFF_FFFFu64 << s)
    }
}

/// The 16-bit chunk of `value` at bit `shift`.
pub open spec fn chunk_at(value: u64, shift: u64) -> u64 {
    (value >> shift) & 0xFFFF
}

/// The `movz`/`movk` operations that load a 64-bit value: one per nonzero
/// 16-bit chunk from chunk `k` up, as (is `movk`, chunk, shift); the first one
/// emitted is a `movz`.
pub open spec fn imm_ops(value: u64, k: nat, emitted: bool) -> Seq<(bool, u64, u64)>
    decreases 4 - k,
{
    if k >= 4 {
        seq![]
    } else {
        let shift = (16 * k) as u64;
        let chunk = chunk_at(value, shift);
        if chunk != 0 {
            seq![(emitted, chunk, shift)] + imm_ops(value, k + 1, true)
        } else {
            imm_ops(value, k + 1, emitted)
        }
    }
}

/// Effect of one `movz`/`movk` on a register: `movz` writes the shifted
/// chunk and clears the rest, `movk` replaces only the 16 bits at the shift.
pub open spec fn apply_imm_op(reg: u64, op: (bool, u64, u64)) -> u64 {
    if op.0 {
        (reg & !(0xFFFFu64 << op.2)) | (op.1 << op.2)
    } else {
        op.1 << op.2
    }
}

/// Register contents after running a sequence of `movz`/`movk` operations.
pub open spec fn run_imm_ops(reg: u64, ops: Seq<(bool, u64, u64)>) -> u64
    decreases ops.len(),
{
    if ops.len() == 0 {
        reg
    } else {
        run_imm_ops(apply_imm_op(reg, ops[0]), ops.drop_first())
    }
}

/// Text of one `movz`/`movk` operation.
pub open spec fn imm_op_text(dest: Seq<char>, op: (bool, u64, u64)) -> Seq<char> {
    (if op.0 {
        "movk "@
    } else {
        "movz "@
    }) + dest + ", #"@ + decimal(op.1 as nat) + ", lsl #"@ + decimal(op.2 as nat)
}

/// Lines for a sequence of `movz`/`movk` operations.
pub open spec fn imm_ops_text(dest: Seq<char>, ops: Seq<(bool, u64, u64)>) -> Seq<char>
    decreases ops.len(),
{
    if ops.len() == 0 {
        seq![]
    } else {
        line(imm_op_text(dest, ops[0])) + imm_ops_text(dest, ops.drop_first())
    }
}

/// Lines that load `value` into `dest`.
pub open spec fn load_imm_text(dest: Seq<char>, value: u64) -> Seq<char> {
    if value == 0 {
        line("mov "@ + dest + ", #0"@)
    } else if value <= 0xFFFF {
        line("mov "@ + dest + ", #"@ + decimal(value as nat))
    } else if is_w_reg(dest) {
        line("movz "@ + dest + ", #"@ + decimal((value & 0xFFFF) as nat)) + if (value >> 16u64) != 0 {
            line("movk "@ + dest + ", #"@ + decimal(((value >> 16u64) & 0xFFFF) as nat)
                + ", lsl #16"@)
        } else {
            seq![]
        }
    } else {
        imm_ops_text(dest, imm_ops(value, 0, false)) + if imm_ops(value, 0, false).len() == 0 {
            line("mov "@ + dest + ", #0"@)
        } else {
            seq![]
        }
    }
}

/// `size` low bits set (all bits for 64).
pub open spec fn size_mask(size: u64) -> u64 {
    if size >= 64 {
        0xFFFF_FFFF_FFFF_FFFFu64
    } else {
        !(0xFFFF_FFFF_FFFF_FFFFu64 << size)
    }
}

/// `v` rotated right by `r` within a field of `size` bits.
pub open spec fn rotate_field(v: u64, r: u64, size: u64) -> u64 {
    if r == 0 {
        v
    } else {
        ((v >> r) | (v << ((size - r) as u64))) & size_mask(size)
    }
}

/// Whether `x` is a run of ones starting at bit 0 (`x & (x + 1) == 0`).
pub open spec fn is_low_run(x: u64) -> bool {
    x < 0xFFFF_FFFF_FFFF_FFFFu64 && (x & ((x + 1) as u64)) == 0
}

/// Whether the low `size` bits of `value` are neither all zero nor all one
/// and some rotation of them is a run of ones starting at bit 0.
pub open spec fn rotated_mask(value: u64, size: u64) -> bool {
    let v = value & size_mask(size);
    &&& 0 < size <= 64
    &&& v != 0
    &&& v != size_mask(size)
    &&& exists|r: u64| r < size && #[trigger] is_low_run(rotate_field(v, r, size))
}

/// `pattern` copied to each `size`-bit field from bit `shift` up to `bits`,
/// or-ed into `acc`.
pub open spec fn replicate(acc: u64, pattern: u64, size: nat, bits: nat, shift: nat) -> u64
    decreases bits + size - shift,
{
    if shift >= bits || size == 0 {
        acc
    } else {
        replicate(acc | (pattern << (shift as u64)), pattern, size, bits, shift + size)
    }
}

/// Whether `v` is the `size`-bit field `v & size_mask(size)` repeated over
/// `bits` bits, with that field a rotated run of ones.
pub open spec fn logical_at(v: u64, size: u64, bits: u64) -> bool {
    let pattern = v & size_mask(size);
    replicate(0, pattern, size as nat, bits as nat, 0) == v && rotated_mask(pattern, size)
}

/// Whether `v` is a logical immediate for one of the field sizes from
/// `size` up to `bits`, doubling each time.
pub open spec fn logical_from(v: u64, size: u64, bits: u64) -> bool
    decreases 129 - size,
{
    if size == 0 || size > bits || bits > 64 {
        false
    } else {
        logical_at(v, size, bits) || logical_from(v, (2 * size) as u64, bits)
    }
}

/// Whether a value can be encoded as an ARM64 logical (bitmask) immediate:
/// not all zeros or all ones within the register width, and a repetition of
/// a field of 2, 4, ..., 32 (or 64) bits that is a rotated run of ones.
pub open spec fn logical_imm(value: u64, is_32: bool) -> bool {
    let bits: u64 = if is_32 {
        32
    } else {
        64
    };
    value != 0 && value != size_mask(bits) && logical_from(value, 2, bits)
}

/// The 32-bit name of an ARM64 register (`xN` becomes `wN`).
pub open spec fn reg32(r: Seq<char>) -> Seq<char> {
    if r.len() > 0 && r[0] == 'x' {
        seq!['w'] + r.drop_first()
    } else {
        r
    }
}

/// The 64-bit name of an ARM64 register (`wN` becomes `xN`).
pub open spec fn reg64(r: Seq<char>) -> Seq<char> {
    if r.len() > 0 && r[0] == 'w' {
        seq!['x'] + r.drop_first()
    } else {
        r
    }
}

/// Name of the cold-cache register for the register width.
pub open spec fn cache_name(rv32: bool) -> Seq<char> {
    if rv32 {
        "w17"@
    } else {
        COLD_CACHE@
    }
}

/// Byte offset of a guest register in the state struct.
pub open spec fn reg_off(layout: RvStateLayout, rv: int) -> int {
    layout.offset_regs + rv * layout.reg_bytes
}

/// One `op arm, [x19, #offset]` line per hot register, in order.
pub open spec fn hot_lines(op: Seq<char>, pairs: Seq<(u8, &'static str)>, layout: RvStateLayout) -> Seq<
    char,
>
    decreases pairs.len(),
{
    if pairs.len() == 0 {
        seq![]
    } else {
        hot_lines(op, pairs.drop_last(), layout) + line(
            mem_op(op, pairs.last().1@, STATE_PTR@, reg_off(layout, pairs.last().0 as int)),
        )
    }
}

/// Lines that load a signed immediate.
pub open spec fn load_signed_imm_text(dest: Seq<char>, value: i64) -> Seq<char> {
    if value >= 0 {
        load_imm_text(dest, value as u64)
    } else if value == -1 {
        line("mov "@ + dest + ", #-1"@)
    } else {
        load_imm_text(dest, value as u64)
    }
}

/// Lines that set `dest` to `base + offset`.
pub open spec fn add_offset_text(dest: Seq<char>, base: Seq<char>, offset: i64) -> Seq<char> {
    if offset == 0 {
        if dest != base {
            line("mov "@ + dest + ", "@ + base)
        } else {
            seq![]
        }
    } else if 1 <= offset <= 4095 {
        line("add "@ + dest + ", "@ + base + ", #"@ + decimal(offset as nat))
    } else if -4095 <= offset < 0 {
        line("sub "@ + dest + ", "@ + base + ", #"@ + decimal((-offset) as nat))
    } else {
        load_imm_text("x2"@, offset as u64) + line("add "@ + dest + ", "@ + base + ", x2"@)
    }
}

/// Bounds check of an address register against `2^bits`: the high bits
/// must be all zeros or all ones, else trap.
pub open spec fn bounds_check_text(addr64: Seq<char>, bits: u8, ok_label: Seq<char>) -> Seq<char> {
    line("asr x2, "@ + addr64 + ", #"@ + decimal(bits as nat)) + line("cbz x2, "@ + ok_label)
        + line("cmn x2, #1"@) + line("b.eq "@ + ok_label) + line("b asm_trap"@) + ok_label + ":\n"@
}

/// Masking of an address register to the guest memory size.
pub open spec fn mask_text(addr64: Seq<char>, mask: u64) -> Seq<char> {
    if mask == 0xffff_ffffu64 {
        line("uxtw "@ + addr64 + ", "@ + reg32(addr64))
    } else if mask <= 0xFFF {
        line("and "@ + addr64 + ", "@ + addr64 + ", #"@ + decimal(mask as nat))
    } else {
        load_imm_text("x2"@, mask) + line("and "@ + addr64 + ", "@ + addr64 + ", x2"@)
    }
}

/// Instret increment by `count`.
pub open spec fn instret_increment_text(count: u64) -> Seq<char> {
    if count <= 0xFFF {
        line("add "@ + INSTRET@ + ", "@ + INSTRET@ + ", #"@ + decimal(count as nat))
    } else {
        load_imm_text("x2"@, count) + line("add "@ + INSTRET@ + ", "@ + INSTRET@ + ", x2"@)
    }
}

/// Field offsets within the diff tracer's record, relative to the tracer.
#[derive(Clone, Copy, Debug)]
pub struct DiffOffsets {
    pub opcode: usize,
    pub rd: usize,
    pub rd_value: usize,
    pub mem_addr: usize,
    pub mem_value: usize,
    pub mem_width: usize,
    pub is_write: usize,
    pub has_rd: usize,
    pub has_mem: usize,
    pub valid: usize,
}

/// The diff tracer record layout for a register width: pc, then opcode
/// (4 bytes), rd (1 byte, padded to 4), rd value, memory address and value
/// (one register each), then the one-byte fields.
pub open spec fn diff_offsets_for(reg_bytes: int) -> DiffOffsets {
    DiffOffsets {
        opcode: reg_bytes as usize,
        rd: (reg_bytes + 4) as usize,
        rd_value: (reg_bytes + 8) as usize,
        mem_addr: (2 * reg_bytes + 8) as usize,
        mem_value: (3 * reg_bytes + 8) as usize,
        mem_width: (4 * reg_bytes + 8) as usize,
        is_write: (4 * reg_bytes + 9) as usize,
        has_rd: (4 * reg_bytes + 10) as usize,
        has_mem: (4 * reg_bytes + 11) as usize,
        valid: (4 * reg_bytes + 12) as usize,
    }
}

/// `op reg, [x19, #off]` as an indented line.
pub open spec fn state_op(op: Seq<char>, reg: Seq<char>, off: int) -> Seq<char> {
    line(mem_op(op, reg, STATE_PTR@, off))
}

/// Store the traced pc.
pub open spec fn trace_pc_store_text(base: int, tmp: Seq<char>, tmp32: Seq<char>, pc: u64, rv32: bool) -> Seq<
    char,
> {
    load_imm_text(tmp, pc) + state_op(
        "str"@,
        if rv32 {
            tmp32
        } else {
            tmp
        },
        base,
    )
}

/// Store the traced opcode.
pub open spec fn trace_opcode_store_text(base: int, tmp32: Seq<char>, opcode: u32, off: DiffOffsets) -> Seq<
    char,
> {
    load_imm_text(tmp32, opcode as u64) + state_op("str"@, tmp32, base + off.opcode)
}

/// Clear the traced register and memory values.
pub open spec fn trace_clear_values_text(base: int, tmp32: Seq<char>, off: DiffOffsets, rv32: bool) -> Seq<
    char,
> {
    line("mov "@ + tmp32 + ", #0"@) + state_op("strb"@, tmp32, base + off.rd) + if rv32 {
        state_op("str"@, tmp32, base + off.rd_value) + state_op("str"@, tmp32, base + off.mem_addr)
            + state_op("str"@, tmp32, base + off.mem_value)
    } else {
        state_op("str"@, "xzr"@, base + off.rd_value) + state_op("str"@, "xzr"@, base + off.mem_addr)
            + state_op("str"@, "xzr"@, base + off.mem_value)
    }
}

/// Clear the trace flags and mark the record valid.
pub open spec fn trace_clear_flags_text(base: int, tmp32: Seq<char>, off: DiffOffsets) -> Seq<char> {
    state_op("strb"@, tmp32, base + off.mem_width) + state_op("strb"@, tmp32, base + off.is_write)
        + state_op("strb"@, tmp32, base + off.has_rd) + state_op("strb"@, tmp32, base + off.has_mem)
        + line("mov "@ + tmp32 + ", #1"@) + state_op("strb"@, tmp32, base + off.valid)
}

/// Move the traced value into the temporary, zero-extended by width.
pub open spec fn trace_value_move_text(tmp: Seq<char>, tmp32: Seq<char>, val: Seq<char>, width: u8, rv32: bool) -> Seq<
    char,
> {
    if width == 1 {
        line("uxtb "@ + tmp32 + ", "@ + reg32(val))
    } else if width == 2 {
        line("uxth "@ + tmp32 + ", "@ + reg32(val))
    } else if width == 8 {
        if rv32 {
            line("mov "@ + tmp32 + ", "@ + reg32(val))
        } else {
            line("mov "@ + tmp + ", "@ + reg64(val))
        }
    } else {
        line("mov "@ + tmp32 + ", "@ + reg32(val))
    }
}

proof fn lemma_append4(x: Seq<char>, a: Seq<char>, b: Seq<char>, c: Seq<char>, d: Seq<char>)
    ensures
        x + (a + b + c + d) == x + a + b + c + d,
{
    lemma_concat_associative(x, a + b + c, d);
    lemma_concat_associative(x, a + b, c);
    lemma_concat_associative(x, a, b);
}

proof fn lemma_append5(
    x: Seq<char>,
    a: Seq<char>,
    b: Seq<char>,
    c: Seq<char>,
    d: Seq<char>,
    e: Seq<char>,
)
    ensures
        x + (a + b + c + d + e) == x + a + b + c + d + e,
{
    lemma_concat_associative(x, a + b + c + d, e);
    lemma_append4(x, a, b, c, d);
}

proof fn lemma_append9(
    x: Seq<char>,
    a: Seq<char>,
    b: Seq<char>,
    c: Seq<char>,
    d: Seq<char>,
    e: Seq<char>,
    f: Seq<char>,
    g: Seq<char>,
    h: Seq<char>,
    i: Seq<char>,
)
    ensures
        x + (a + b + c + d + e + f + g + h + i) == x + a + b + c + d + e + f + g + h + i,
{
    lemma_concat_associative(x, a + b + c + d + e + f + g + h, i);
    lemma_concat_associative(x, a + b + c + d + e + f + g, h);
    lemma_concat_associative(x, a + b + c + d + e + f, g);
    lemma_concat_associative(x, a + b + c + d + e, f);
    lemma_append5(x, a, b, c, d, e);
}

/// For a 64-bit guest the hot registers have 64-bit names.
pub proof fn lemma_hot_wide(e: Arm64Emitter, rv: int)
    requires
        e.wf(),
        !e.is_rv32(),
    ensures
        e.hot_name(rv) matches Some(n) ==> !is_w_reg(n@),
{
    let hot = e.reg_map.hot_list();
    if 0 < rv < 32 {
        let n = if hot.len() < HOT_REG_SLOTS {
            hot.len() as int
        } else {
            HOT_REG_SLOTS as int
        };
        lemma_last_index_bound(hot, rv, n);
        if let Some(i) = last_index(hot, rv, n) {
            lemma_available_wide(i);
        }
    }
}

proof fn lemma_x2_narrow()
    ensures
        !is_w_reg("x2"@),
{
    reveal_strlit("x2");
}

proof fn lemma_rotate_not_full(v: u64, r: u64, size: u64)
    requires
        0 < size <= 64,
        r < size,
        v & size_mask(size) == v,
        v != size_mask(size),
    ensures
        rotate_field(v, r, size) < 0xFFFF_FFFF_FFFF_FFFFu64,
{
    let m = 0xFFFF_FFFF_FFFF_FFFFu64;
    let s = (size - r) as u64;
    assert((size < 64 ==> v & !(m << size) != m) && (size < 64 ==> ((v >> r) | (v << s)) & !(m
        << size) != m) && (0 < r && size == 64 && v != m ==> ((v >> r) | (v << s)) & m != m)) by (
    bit_vector)
        requires
            0 < size <= 64,
            r < size,
            s == size - r,
            m == 0xFFFF_FFFF_FFFF_FFFFu64,
    ;
}

proof fn lemma_imm_step(value: u64, reg: u64, s: u64, emitted: bool)
    requires
        s == 0 || s == 16 || s == 32 || s == 48,
        emitted ==> reg == low_bits(value, s),
        !emitted ==> low_bits(value, s) == 0,
    ensures
        chunk_at(value, s) != 0 ==> apply_imm_op(reg, (emitted, chunk_at(value, s), s)) == low_bits(
            value,
            (s + 16) as u64,
        ),
        chunk_at(value, s) == 0 ==> low_bits(value, (s + 16) as u64) == low_bits(value, s),
{
    let m = 0xFFFF_FFFF_FFFF_FFFFu64;
    let t: u64 = if s < 48 {
        (s + 16) as u64
    } else {
        0
    };
    let hi = if s < 48 {
        value & !(m << t)
    } else {
        value
    };
    assert(((value & !(m << s)) & !(0xFFFFu64 << s) | (((value >> s) & 0xFFFF) << s) == hi) && (
    value & !(m << s) == 0 ==> ((value >> s) & 0xFFFF) << s == hi) && (((value >> s) & 0xFFFF) == 0
        ==> hi == value & !(m << s))) by (bit_vector)
        requires
            s == 0 || s == 16 || s == 32 || s == 48,
            s < 48 ==> t == s + 16,
            s < 48 ==> hi == value & !(m << t),
            s == 48 ==> hi == value,
            m == 0xFFFF_FFFF_FFFF_FFFFu64,
    ;
    assert(hi == low_bits(value, (s + 16) as u64));
}

proof fn lemma_imm_ops_run(value: u64, k: nat, emitted: bool, reg: u64)
    requires
        k <= 4,
        value != 0,
        emitted ==> reg == low_bits(value, (16 * k) as u64),
        !emitted ==> low_bits(value, (16 * k) as u64) == 0,
    ensures
        run_imm_ops(reg, imm_ops(value, k, emitted)) == value,
        !emitted ==> imm_ops(value, k, emitted).len() > 0 && !imm_ops(value, k, emitted)[0].0,
    decreases 4 - k,
{
    if k < 4 {
        let s = (16 * k) as u64;
        let c = chunk_at(value, s);
        lemma_imm_step(value, reg, s, emitted);
        assert((16 * (k + 1)) as u64 == (s + 16) as u64);
        if c != 0 {
            let op = (emitted, c, s);
            lemma_imm_ops_run(value, k + 1, true, apply_imm_op(reg, op));
            assert((seq![op] + imm_ops(value, k + 1, true)).drop_first() =~= imm_ops(
                value,
                k + 1,
                true,
            ));
        } else {
            lemma_imm_ops_run(value, k + 1, emitted, reg);
        }
    }
}

/// The `movz`/`movk` sequence that `load_imm` emits for a 64-bit register
/// starts with a `movz` and leaves exactly `value` in the register, whatever
/// it held before; the two-instruction 32-bit sequence does the same for a
/// value that needs both halves.
pub proof fn law_load_imm_loads_value(value: u64, reg: u64)
    requires
        value != 0,
    ensures
        imm_ops(value, 0, false).len() > 0,
        !imm_ops(value, 0, false)[0].0,
        run_imm_ops(reg, imm_ops(value, 0, false)) == value,
        0xFFFF < value <= 0xFFFF_FFFF ==> run_imm_ops(
            reg,
            seq![(false, value & 0xFFFF, 0u64), (true, (value >> 16u64) & 0xFFFF, 16u64)],
        ) == value,
{
    assert(value & !(0xFFFF_FFFF_FFFF_FFFFu64 << 0u64) == 0 && (value <= 0xFFFF_FFFF ==> (((value
        & 0xFFFF) << 0u64) & !(0xFFFFu64 << 16u64)) | (((value >> 16u64) & 0xFFFF) << 16u64) == value))
        by (bit_vector);
    lemma_imm_ops_run(value, 0, false, reg);
    if 0xFFFF < value <= 0xFFFF_FFFF {
        let ops = seq![(false, value & 0xFFFF, 0u64), (true, (value >> 16u64) & 0xFFFF, 16u64)];
        let r1 = apply_imm_op(reg, ops[0]);
        let r2 = apply_imm_op(r1, ops[1]);
        assert(ops.drop_first().drop_first() =~= Seq::<(bool, u64, u64)>::empty());
        assert(ops.drop_first()[0] == ops[1]);
        assert(r1 == (value & 0xFFFF) << 0u64);
        assert(r2 == value);
        assert(run_imm_ops(r2, ops.drop_first().drop_first()) == r2);
        assert(run_imm_ops(r1, ops.drop_first()) == run_imm_ops(r2, ops.drop_first().drop_first()));
        assert(run_imm_ops(reg, ops) == run_imm_ops(r1, ops.drop_first()));
    }
}

/// The lines that record the pc and the opcode of an instruction for the
/// diff tracer.
pub open spec fn trace_pc_text(e: Arm64Emitter, pc: u64, opcode: u32) -> Seq<char> {
    if e.config.tracer_config.builtin == Some(
                TracerKind::Diff,
            ) {
                let base = e.layout.offset_tracer as int;
                let off = diff_offsets_for(e.layout.reg_bytes as int);
                let rv32 = e.is_rv32();
                let tmp = if rv32 {
                    "w0"@
                } else {
                    "x0"@
                };
                trace_pc_store_text(base, tmp, reg32(tmp), pc, rv32) + trace_opcode_store_text(
                    base,
                    reg32(tmp),
                    opcode,
                    off,
                ) + trace_clear_values_text(base, reg32(tmp), off, rv32) + trace_clear_flags_text(
                    base,
                    reg32(tmp),
                    off,
                )
            } else {
                seq![]
            }
}

/// The lines that record a register write for the diff tracer.
pub open spec fn trace_reg_text(e: Arm64Emitter, reg: u8, val: Seq<char>) -> Seq<char> {
    if e.config.tracer_config.builtin == Some(
                TracerKind::Diff,
            ) && reg != 0 {
                let base = e.layout.offset_tracer as int;
                let off = diff_offsets_for(e.layout.reg_bytes as int);
                let rv32 = e.is_rv32();
                let tmp32 = reg32(
                    if rv32 {
                        "w2"@
                    } else {
                        "x2"@
                    },
                );
                line("mov "@ + tmp32 + ", #"@ + decimal(reg as nat)) + state_op(
                    "strb"@,
                    tmp32,
                    base + off.rd,
                ) + state_op(
                    "str"@,
                    if rv32 {
                        reg32(val)
                    } else {
                        reg64(val)
                    },
                    base + off.rd_value,
                ) + line("mov "@ + tmp32 + ", #1"@) + state_op("strb"@, tmp32, base + off.has_rd)
            } else {
                seq![]
            }
}

/// The lines that record a memory access for the diff tracer (none for
/// other tracers).
pub open spec fn trace_mem_text(e: Arm64Emitter, addr: Seq<char>, val: Seq<char>, width: u8, is_write: bool) -> Seq<
    char,
> {
    if e.config.tracer_config.builtin == Some(
                TracerKind::Diff,
            ) {
                let base = e.layout.offset_tracer as int;
                let off = diff_offsets_for(e.layout.reg_bytes as int);
                let rv32 = e.is_rv32();
                let tmp = if rv32 {
                    "w2"@
                } else {
                    "x2"@
                };
                let tmp32 = reg32(tmp);
                state_op(
                    "str"@,
                    if rv32 {
                        reg32(addr)
                    } else {
                        reg64(addr)
                    },
                    base + off.mem_addr,
                ) + trace_value_move_text(tmp, tmp32, val, width, rv32) + state_op(
                    "str"@,
                    if rv32 {
                        tmp32
                    } else if width == 8 {
                        tmp
                    } else {
                        reg64(tmp)
                    },
                    base + off.mem_value,
                ) + line("mov "@ + tmp32 + ", #"@ + decimal(width as nat)) + state_op(
                    "strb"@,
                    tmp32,
                    base + off.mem_width,
                ) + line(
                    "mov "@ + tmp32 + ", #"@ + decimal(
                        if is_write {
                            1nat
                        } else {
                            0nat
                        },
                    ),
                ) + state_op("strb"@, tmp32, base + off.is_write) + line("mov "@ + tmp32 + ", #1"@)
                    + state_op("strb"@, tmp32, base + off.has_mem)
            } else {
                seq![]
            }
}

impl Arm64Emitter {
    /// The ARM64 register holding a guest register, if it is hot.
    pub open spec fn hot_name(self, rv: int) -> Option<&'static str> {
        slot_name(hot_slot(self.reg_map.hot_list(), rv), self.reg_map.narrow())
    }

    /// The 32-bit version of an ARM64 register name.
    pub fn reg_32(reg: &str) -> (r: String)
        ensures
            r@ == reg32(reg@),
    {
        Self::rename(reg, 'x', 'w')
    }

    /// The 64-bit version of an ARM64 register name.
    pub fn reg_64(reg: &str) -> (r: String)
        ensures
            r@ == reg64(reg@),
    {
        Self::rename(reg, 'w', 'x')
    }

    /// `reg` with its first character replaced when it is `from`.
    fn rename(reg: &str, from: char, to: char) -> (r: String)
        ensures
            r@ == if reg@.len() > 0 && reg@[0] == from {
                seq![to] + reg@.drop_first()
            } else {
                reg@
            },
    {
        let chars = str_chars(reg);
        if chars.len() > 0 && chars[0] == from {
            let mut s = String::new();
            push_char(&mut s, to);
            let mut i: usize = 1;
            while i < chars.len()
                invariant
                    1 <= i <= chars.len(),
                    chars@ == reg@,
                    s@ == seq![to] + reg@.subrange(1, i as int),
                decreases chars.len() - i,
            {
                push_char(&mut s, chars[i]);
                assert(reg@.subrange(1, i + 1) =~= reg@.subrange(1, i as int).push(reg@[i as int]));
                i += 1;
            }
            assert(reg@.subrange(1, i as int) =~= reg@.drop_first());
            s
        } else {
            string_of(reg)
        }
    }

    /// First temporary register (`w0` or `x0`).
    pub fn temp1(&self) -> (r: &'static str)
        ensures
            r@ == if self.is_rv32() {
                "w0"@
            } else {
                "x0"@
            },
    {
        match self.config.xlen {
            Xlen::Rv32 => "w0",
            Xlen::Rv64 => "x0",
        }
    }

    /// Second temporary register (`w1` or `x1`).
    pub fn temp2(&self) -> (r: &'static str)
        ensures
            r@ == if self.is_rv32() {
                "w1"@
            } else {
                "x1"@
            },
    {
        match self.config.xlen {
            Xlen::Rv32 => "w1",
            Xlen::Rv64 => "x1",
        }
    }

    /// Third temporary register (`w2` or `x2`).
    pub fn temp3(&self) -> (r: &'static str)
        ensures
            r@ == if self.is_rv32() {
                "w2"@
            } else {
                "x2"@
            },
    {
        match self.config.xlen {
            Xlen::Rv32 => "w2",
            Xlen::Rv64 => "x2",
        }
    }

    /// Stack offset of a temp slot, if the index is in range.
    pub fn temp_slot_offset(idx: u8) -> (r: Option<usize>)
        ensures
            r == if idx < TEMP_SLOTS {
                Some((idx * TEMP_SLOT_BYTES) as usize)
            } else {
                None
            },
    {
        let idx = idx as usize;
        if idx < TEMP_SLOTS {
            Some(idx * TEMP_SLOT_BYTES)
        } else {
            None
        }
    }

    /// Allocate a spill slot (slots 4 and up) for nested binary operations.
    pub fn alloc_spill_slot(&mut self) -> (r: Option<usize>)
        ensures
            old(self).spill_depth + 4 < TEMP_SLOTS ==> r == Some(
                ((4 + old(self).spill_depth) * TEMP_SLOT_BYTES) as usize,
            ) && final(self).spill_depth == old(self).spill_depth + 1,
            old(self).spill_depth + 4 >= TEMP_SLOTS ==> r.is_none() && final(self).spill_depth
                == old(self).spill_depth,
            final(self).out@ == old(self).out@,
            old(self).fixed(*final(self)),
            final(self).label_counter == old(self).label_counter,
            final(self).cold_cache == old(self).cold_cache,
    {
        if self.spill_depth < TEMP_SLOTS - 4 {
            let idx = 4 + self.spill_depth;
            self.spill_depth = self.spill_depth + 1;
            Some(idx * TEMP_SLOT_BYTES)
        } else {
            None
        }
    }

    /// Release the most recently allocated spill slot.
    pub fn release_spill_slot(&mut self)
        ensures
            final(self).spill_depth == if old(self).spill_depth > 0 {
                (old(self).spill_depth - 1) as usize
            } else {
                0
            },
            final(self).out@ == old(self).out@,
            old(self).fixed(*final(self)),
            final(self).label_counter == old(self).label_counter,
            final(self).cold_cache == old(self).cold_cache,
    {
        if self.spill_depth > 0 {
            self.spill_depth = self.spill_depth - 1;
        }
    }

    /// The cold-cache register for the register width.
    pub fn cold_cache_reg(&self) -> (r: &'static str)
        ensures
            r@ == cache_name(self.is_rv32()),
    {
        match self.config.xlen {
            Xlen::Rv32 => "w17",
            Xlen::Rv64 => COLD_CACHE,
        }
    }

    /// The cold-cache register, if it holds `rv_reg`.
    pub fn cold_cache_hit(&self, rv_reg: u8) -> (r: Option<&'static str>)
        ensures
            self.cold_cache == Some(rv_reg) ==> r is Some && r->0@ == cache_name(self.is_rv32()),
            self.cold_cache != Some(rv_reg) ==> r is None,
    {
        if self.cold_cache == Some(rv_reg) {
            Some(self.cold_cache_reg())
        } else {
            None
        }
    }

    /// Record that the cold-cache register now holds `rv_reg`.
    pub fn cold_cache_set(&mut self, rv_reg: u8) -> (r: &'static str)
        ensures
            r@ == cache_name(old(self).is_rv32()),
            final(self).cold_cache == Some(rv_reg),
            final(self).out@ == old(self).out@,
            old(self).fixed(*final(self)),
            final(self).label_counter == old(self).label_counter,
            final(self).spill_depth == old(self).spill_depth,
    {
        self.cold_cache = Some(rv_reg);
        self.cold_cache_reg()
    }

    /// Forget the cold cache if it holds `rv_reg` (after a write to it).
    pub fn cold_cache_invalidate(&mut self, rv_reg: u8)
        ensures
            final(self).cold_cache == if old(self).cold_cache == Some(rv_reg) {
                None
            } else {
                old(self).cold_cache
            },
            final(self).out@ == old(self).out@,
            old(self).fixed(*final(self)),
            final(self).label_counter == old(self).label_counter,
            final(self).spill_depth == old(self).spill_depth,
    {
        if self.cold_cache == Some(rv_reg) {
            self.cold_cache = None;
        }
    }

    /// The ARM64 register holding a guest register (hot registers only).
    pub fn rv_reg(&self, reg: u8) -> (r: Option<&'static str>)
        ensures
            r == if reg == 0 {
                None
            } else {
                self.hot_name(reg as int)
            },
    {
        if reg == 0 {
            return None;
        }
        self.reg_map.get(reg)
    }

    /// Load a guest register into a register and return the register that
    /// holds it: `temp` (zeroed) for x0, the hot register, or the cold cache.
    pub fn load_rv_to_temp(&mut self, rv_reg: u8, temp: &str) -> (r: String)
        requires
            old(self).wf(),
        ensures
            old(self).fixed(*final(self)),
            final(self).label_counter == old(self).label_counter,
            final(self).spill_depth == old(self).spill_depth,
            rv_reg == 0 ==> r@ == temp@ && final(self).out@ == old(self).out@ + line(
                "mov "@ + temp@ + ", #0"@,
            ) && final(self).cold_cache == old(self).cold_cache,
            rv_reg != 0 && old(self).hot_name(rv_reg as int) is Some ==> r@ == old(self).hot_name(
                rv_reg as int,
            )->0@ && final(self).out@ == old(self).out@ && final(self).cold_cache == old(self).cold_cache,
            rv_reg != 0 && old(self).hot_name(rv_reg as int) is None && old(self).cold_cache == Some(
                rv_reg,
            ) ==> r@ == cache_name(old(self).is_rv32()) && final(self).out@ == old(self).out@
                && final(self).cold_cache == old(self).cold_cache,
            rv_reg != 0 && old(self).hot_name(rv_reg as int) is None && old(self).cold_cache != Some(
                rv_reg,
            ) ==> r@ == cache_name(old(self).is_rv32()) && final(self).out@ == old(self).out@ + line(
                mem_op(
                    "ldr"@,
                    cache_name(old(self).is_rv32()),
                    STATE_PTR@,
                    reg_off(old(self).layout, rv_reg as int),
                ),
            ) && final(self).cold_cache == Some(rv_reg),
    {
        if rv_reg == 0 {
            let mut l = String::new();
            push_str(&mut l, "mov ");
            push_str(&mut l, temp);
            push_str(&mut l, ", #0");
            self.emit(l.as_str());
            return string_of(temp);
        }
        match self.reg_map.get(rv_reg) {
            Some(arm_reg) => string_of(arm_reg),
            None => {
                if let Some(cached) = self.cold_cache_hit(rv_reg) {
                    return string_of(cached);
                }
                let offset = self.layout.reg_offset(rv_reg);
                let cache_reg = self.cold_cache_set(rv_reg);
                self.emit_mem_op("ldr", cache_reg, STATE_PTR, offset);
                string_of(cache_reg)
            },
        }
    }

    /// Load a guest register as a 64-bit address and return the register
    /// that holds it (RV32 values are zero-extended into `temp64`).
    pub fn load_rv_as_addr(&mut self, rv_reg: u8, temp64: &str) -> (r: String)
        requires
            old(self).wf(),
        ensures
            old(self).keeps(*final(self)),
            rv_reg == 0 ==> r@ == temp64@ && final(self).out@ == old(self).out@ + line(
                "mov "@ + temp64@ + ", #0"@,
            ),
            rv_reg != 0 && old(self).hot_name(rv_reg as int) is Some && old(self).is_rv32() ==> r@
                == temp64@ && final(self).out@ == old(self).out@ + line(
                "mov "@ + temp64@ + ", "@ + reg64(old(self).hot_name(rv_reg as int)->0@),
            ),
            rv_reg != 0 && old(self).hot_name(rv_reg as int) is Some && !old(self).is_rv32() ==> r@
                == old(self).hot_name(rv_reg as int)->0@ && final(self).out@ == old(self).out@,
            rv_reg != 0 && old(self).hot_name(rv_reg as int) is None ==> r@ == temp64@ && final(self).out@ == old(self).out@ + line(
                mem_op(
                    "ldr"@,
                    if old(self).is_rv32() {
                        reg32(temp64@)
                    } else {
                        temp64@
                    },
                    STATE_PTR@,
                    reg_off(old(self).layout, rv_reg as int),
                ),
            ),
    {
        if rv_reg == 0 {
            let mut l = String::new();
            push_str(&mut l, "mov ");
            push_str(&mut l, temp64);
            push_str(&mut l, ", #0");
            self.emit(l.as_str());
            return string_of(temp64);
        }
        let rv32 = match self.config.xlen {
            Xlen::Rv32 => true,
            Xlen::Rv64 => false,
        };
        match self.reg_map.get(rv_reg) {
            Some(arm_reg) => {
                if rv32 {
                    let reg64 = Self::reg_64(arm_reg);
                    let mut l = String::new();
                    push_str(&mut l, "mov ");
                    push_str(&mut l, temp64);
                    push_str(&mut l, ", ");
                    push_str(&mut l, reg64.as_str());
                    self.emit(l.as_str());
                    string_of(temp64)
                } else {
                    string_of(arm_reg)
                }
            },
            None => {
                let offset = self.layout.reg_offset(rv_reg);
                if rv32 {
                    let temp32 = Self::reg_32(temp64);
                    self.emit_mem_op("ldr", temp32.as_str(), STATE_PTR, offset);
                } else {
                    self.emit_mem_op("ldr", temp64, STATE_PTR, offset);
                }
                string_of(temp64)
            },
        }
    }

    /// Store a value register to a guest register (writes to x0 vanish).
    pub fn store_to_rv(&mut self, rv_reg: u8, value: &str)
        requires
            old(self).wf(),
        ensures
            old(self).keeps(*final(self)),
            rv_reg == 0 ==> final(self).out@ == old(self).out@,
            rv_reg != 0 && old(self).hot_name(rv_reg as int) is Some ==> final(self).out@ == old(self).out@ + if old(self).hot_name(rv_reg as int)->0@ != value@ {
                line("mov "@ + old(self).hot_name(rv_reg as int)->0@ + ", "@ + value@)
            } else {
                seq![]
            },
            rv_reg != 0 && old(self).hot_name(rv_reg as int) is None ==> final(self).out@ == old(self).out@ + line(mem_op("str"@, value@, STATE_PTR@, reg_off(old(self).layout, rv_reg as int))),
    {
        if rv_reg == 0 {
            return;
        }
        match self.reg_map.get(rv_reg) {
            Some(arm_reg) => {
                if !str_eq(arm_reg, value) {
                    let mut l = String::new();
                    push_str(&mut l, "mov ");
                    push_str(&mut l, arm_reg);
                    push_str(&mut l, ", ");
                    push_str(&mut l, value);
                    self.emit(l.as_str());
                }
            },
            None => {
                let offset = self.layout.reg_offset(rv_reg);
                self.emit_mem_op("str", value, STATE_PTR, offset);
            },
        }
    }

    /// Emit `op arm, [x19, #offset]` for each hot register, in order.
    pub fn emit_hot_lines(&mut self, op: &str)
        requires
            old(self).wf(),
        ensures
            final(self).out@ == old(self).out@ + hot_lines(
                op@,
                crate::registers::hot_pairs(
                    old(self).reg_map.hot_list(),
                    old(self).reg_map.narrow(),
                    32,
                ),
                old(self).layout,
            ),
            old(self).keeps(*final(self)),
    {
        let hot_regs = self.reg_map.hot_regs();
        let ghost start = self.out@;
        let ghost before = *self;
        let mut k: usize = 0;
        while k < hot_regs.len()
            invariant
                k <= hot_regs@.len(),
                self.wf(),
                before.keeps(*self),
                self.out@ == start + hot_lines(op@, hot_regs@.take(k as int), self.layout),
            decreases hot_regs.len() - k,
        {
            let (rv_reg, arm_reg) = hot_regs[k];
            let offset = self.layout.reg_offset(rv_reg);
            self.emit_mem_op(op, arm_reg, STATE_PTR, offset);
            assert(hot_regs@.take(k + 1).drop_last() =~= hot_regs@.take(k as int));
            k += 1;
        }
        assert(hot_regs@.take(k as int) =~= hot_regs@);
    }

    /// Emit `op arm, [x19, #offset]` for each hot register, then for the
    /// instret cache when instret is counted; the cold cache is forgotten.
    fn hot_regs_state_op(&mut self, op: &str)
        requires
            old(self).wf(),
        ensures
            final(self).out@ == old(self).out@ + hot_lines(
                op@,
                crate::registers::hot_pairs(
                    old(self).reg_map.hot_list(),
                    old(self).reg_map.narrow(),
                    32,
                ),
                old(self).layout,
            ) + if old(self).config.instret_mode != InstretMode::Off {
                line(mem_op(op@, INSTRET@, STATE_PTR@, old(self).layout.offset_instret as int))
            } else {
                seq![]
            },
            old(self).fixed(*final(self)),
            final(self).label_counter == old(self).label_counter,
            final(self).spill_depth == old(self).spill_depth,
            final(self).cold_cache.is_none(),
    {
        self.emit_hot_lines(op);
        if self.config.instret_mode.counts() {
            let instret_off = self.layout.offset_instret;
            self.emit_mem_op(op, INSTRET, STATE_PTR, instret_off);
        }
        self.cold_cache = None;
    }

    /// Save all hot registers (and the instret cache) to state, before an
    /// external call.
    pub fn save_hot_regs_to_state(&mut self)
        requires
            old(self).wf(),
        ensures
            final(self).out@ == old(self).out@ + hot_lines(
                "str"@,
                crate::registers::hot_pairs(
                    old(self).reg_map.hot_list(),
                    old(self).reg_map.narrow(),
                    32,
                ),
                old(self).layout,
            ) + if old(self).config.instret_mode != InstretMode::Off {
                line(mem_op("str"@, INSTRET@, STATE_PTR@, old(self).layout.offset_instret as int))
            } else {
                seq![]
            },
            old(self).fixed(*final(self)),
            final(self).label_counter == old(self).label_counter,
            final(self).spill_depth == old(self).spill_depth,
            final(self).cold_cache.is_none(),
    {
        self.hot_regs_state_op("str");
    }

    /// Restore all hot registers (and the instret cache) from state, after
    /// an external call.
    pub fn restore_hot_regs_from_state(&mut self)
        requires
            old(self).wf(),
        ensures
            final(self).out@ == old(self).out@ + hot_lines(
                "ldr"@,
                crate::registers::hot_pairs(
                    old(self).reg_map.hot_list(),
                    old(self).reg_map.narrow(),
                    32,
                ),
                old(self).layout,
            ) + if old(self).config.instret_mode != InstretMode::Off {
                line(mem_op("ldr"@, INSTRET@, STATE_PTR@, old(self).layout.offset_instret as int))
            } else {
                seq![]
            },
            old(self).fixed(*final(self)),
            final(self).label_counter == old(self).label_counter,
            final(self).spill_depth == old(self).spill_depth,
            final(self).cold_cache.is_none(),
    {
        self.hot_regs_state_op("ldr");
    }

    /// Load a signed immediate that might be negative.
    pub fn load_signed_imm(&mut self, dest: &str, value: i64)
        requires
            is_w_reg(dest@) ==> (0 <= value <= 0xFFFF_FFFF || value == -1),
        ensures
            final(self).out@ == old(self).out@ + load_signed_imm_text(dest@, value),
            old(self).keeps(*final(self)),
    {
        if value >= 0 {
            self.load_imm(dest, value as u64);
        } else if value == -1 {
            let mut l = String::new();
            push_str(&mut l, "mov ");
            push_str(&mut l, dest);
            push_str(&mut l, ", #-1");
            self.emit(l.as_str());
        } else {
            self.load_imm(dest, value as u64);
        }
    }

    /// Set `dest` to `base + offset`; ARM64 add immediates are unsigned
    /// 12-bit values, so negative offsets use `sub` and large ones go
    /// through `x2`.
    pub fn emit_add_offset(&mut self, dest: &str, base: &str, offset: i64)
        ensures
            final(self).out@ == old(self).out@ + add_offset_text(dest@, base@, offset),
            old(self).keeps(*final(self)),
    {
        if offset == 0 {
            if !str_eq(dest, base) {
                let mut l = String::new();
                push_str(&mut l, "mov ");
                push_str(&mut l, dest);
                push_str(&mut l, ", ");
                push_str(&mut l, base);
                self.emit(l.as_str());
            }
        } else if 1 <= offset && offset <= 4095 {
            let mut l = String::new();
            push_str(&mut l, "add ");
            push_str(&mut l, dest);
            push_str(&mut l, ", ");
            push_str(&mut l, base);
            push_str(&mut l, ", #");
            push_decimal(&mut l, offset as u64);
            self.emit(l.as_str());
        } else if -4095 <= offset && offset < 0 {
            let mut l = String::new();
            push_str(&mut l, "sub ");
            push_str(&mut l, dest);
            push_str(&mut l, ", ");
            push_str(&mut l, base);
            push_str(&mut l, ", #");
            push_decimal(&mut l, (-offset) as u64);
            self.emit(l.as_str());
        } else {
            let ghost start = self.out@;
            proof {
                lemma_x2_narrow();
            }
            self.load_imm("x2", offset as u64);
            let mut l = String::new();
            push_str(&mut l, "add ");
            push_str(&mut l, dest);
            push_str(&mut l, ", ");
            push_str(&mut l, base);
            push_str(&mut l, ", x2");
            self.emit(l.as_str());
            assert(self.out@ =~= start + add_offset_text(dest@, base@, offset));
        }
    }

    /// Trap unless the bits of an address above `memory_bits` are all zeros
    /// or all ones.
    fn emit_bounds_check(&mut self, addr_reg: &str)
        requires
            old(self).label_counter < usize::MAX,
        ensures
            final(self).out@ == old(self).out@ + bounds_check_text(
                reg64(addr_reg@),
                old(self).config.memory_bits,
                label_name("bounds_ok"@, old(self).label_counter + 1),
            ),
            final(self).label_counter == old(self).label_counter + 1,
            old(self).fixed(*final(self)),
            final(self).cold_cache == old(self).cold_cache,
            final(self).spill_depth == old(self).spill_depth,
    {
        let ghost start = self.out@;
        let ok_label = self.next_label("bounds_ok");
        let addr64 = Self::reg_64(addr_reg);
        let shift_amount = self.config.memory_bits;
        let mut l = String::new();
        push_str(&mut l, "asr x2, ");
        push_str(&mut l, addr64.as_str());
        push_str(&mut l, ", #");
        push_decimal(&mut l, shift_amount as u64);
        self.emit(l.as_str());
        let mut m = String::new();
        push_str(&mut m, "cbz x2, ");
        push_str(&mut m, ok_label.as_str());
        self.emit(m.as_str());
        self.emit("cmn x2, #1");
        let mut n = String::new();
        push_str(&mut n, "b.eq ");
        push_str(&mut n, ok_label.as_str());
        self.emit(n.as_str());
        self.emit("b asm_trap");
        self.emit_label(ok_label.as_str());
        assert(self.out@ =~= start + bounds_check_text(
            reg64(addr_reg@),
            self.config.memory_bits,
            label_name("bounds_ok"@, old(self).label_counter + 1),
        ));
    }

    /// Mask an address to the guest memory size.
    fn emit_address_mask(&mut self, addr_reg: &str)
        ensures
            final(self).out@ == old(self).out@ + mask_text(reg64(addr_reg@), old(self).memory_mask),
            old(self).keeps(*final(self)),
    {
        let ghost start = self.out@;
        let mask = self.memory_mask;
        let addr64 = Self::reg_64(addr_reg);
        if mask == 0xffff_ffffu64 {
            let addr32 = Self::reg_32(addr64.as_str());
            let mut l = String::new();
            push_str(&mut l, "uxtw ");
            push_str(&mut l, addr64.as_str());
            push_str(&mut l, ", ");
            push_str(&mut l, addr32.as_str());
            self.emit(l.as_str());
        } else if mask <= 0xFFF {
            let mut l = String::new();
            push_str(&mut l, "and ");
            push_str(&mut l, addr64.as_str());
            push_str(&mut l, ", ");
            push_str(&mut l, addr64.as_str());
            push_str(&mut l, ", #");
            push_decimal(&mut l, mask);
            self.emit(l.as_str());
        } else {
            proof {
                lemma_x2_narrow();
            }
            self.load_imm("x2", mask);
            let mut l = String::new();
            push_str(&mut l, "and ");
            push_str(&mut l, addr64.as_str());
            push_str(&mut l, ", ");
            push_str(&mut l, addr64.as_str());
            push_str(&mut l, ", x2");
            self.emit(l.as_str());
        }
        assert(self.out@ =~= start + mask_text(reg64(addr_reg@), self.memory_mask));
    }

    /// Apply the address mode to an address register: in bounds mode, trap
    /// unless the bits above `memory_bits` are all zeros or all ones; in wrap
    /// and bounds modes, mask the address to the memory size.
    pub fn apply_address_mode(&mut self, addr_reg: &str)
        requires
            old(self).label_counter < usize::MAX,
        ensures
            final(self).out@ == old(self).out@ + (if old(self).config.address_mode
                == AddressMode::Bounds {
                bounds_check_text(
                    reg64(addr_reg@),
                    old(self).config.memory_bits,
                    label_name("bounds_ok"@, old(self).label_counter + 1),
                )
            } else {
                seq![]
            }) + (if old(self).config.address_mode != AddressMode::Unchecked {
                mask_text(reg64(addr_reg@), old(self).memory_mask)
            } else {
                seq![]
            }),
            final(self).label_counter == old(self).label_counter + if old(self).config.address_mode
                == AddressMode::Bounds {
                1int
            } else {
                0int
            },
            old(self).fixed(*final(self)),
            final(self).cold_cache == old(self).cold_cache,
            final(self).spill_depth == old(self).spill_depth,
    {
        let mode = self.config.address_mode;
        let ghost start = self.out@;
        if mode.needs_bounds_check() {
            self.emit_bounds_check(addr_reg);
        }
        let ghost mid = self.out@;
        if mode.needs_mask() {
            self.emit_address_mask(addr_reg);
        }
        assert(self.out@ =~= mid + (if mode != AddressMode::Unchecked {
            mask_text(reg64(addr_reg@), self.memory_mask)
        } else {
            seq![]
        }));
    }

    /// Emit the instret increment for `count` retired instructions (the
    /// counter lives in its cached register); nothing when instret is off.
    pub fn emit_instret_increment(&mut self, count: u64, pc: u64)
        ensures
            final(self).out@ == old(self).out@ + if old(self).config.instret_mode
                != InstretMode::Off {
                instret_increment_text(count)
            } else {
                seq![]
            },
            old(self).keeps(*final(self)),
    {
        if !self.config.instret_mode.counts() {
            return;
        }
        let ghost start = self.out@;
        if count <= 0xFFF {
            let mut l = String::new();
            push_str(&mut l, "add ");
            push_str(&mut l, INSTRET);
            push_str(&mut l, ", ");
            push_str(&mut l, INSTRET);
            push_str(&mut l, ", #");
            push_decimal(&mut l, count);
            self.emit(l.as_str());
        } else {
            proof {
                lemma_x2_narrow();
            }
            self.load_imm("x2", count);
            let mut l = String::new();
            push_str(&mut l, "add ");
            push_str(&mut l, INSTRET);
            push_str(&mut l, ", ");
            push_str(&mut l, INSTRET);
            push_str(&mut l, ", x2");
            self.emit(l.as_str());
        }
        assert(self.out@ =~= start + instret_increment_text(count));
    }

    /// The built-in tracer in use, if any.
    pub fn tracer_kind(&self) -> (r: Option<TracerKind>)
        ensures
            r == self.config.tracer_config.builtin,
    {
        self.config.tracer_config.builtin_kind()
    }

    /// Whether the diff tracer is in use.
    pub fn diff_tracer_enabled(&self) -> (r: bool)
        ensures
            r == (self.config.tracer_config.builtin == Some(TracerKind::Diff)),
    {
        match self.tracer_kind() {
            Some(TracerKind::Diff) => true,
            _ => false,
        }
    }

    /// Field offsets of the diff tracer record for the register width.
    pub fn diff_offsets(&self) -> (r: DiffOffsets)
        requires
            self.wf(),
        ensures
            r == diff_offsets_for(self.layout.reg_bytes as int),
    {
        let reg_bytes = self.layout.reg_bytes;
        let opcode = reg_bytes;
        let rd = reg_bytes + 4;
        let rd_value = reg_bytes + 8;
        let mem_addr = rd_value + reg_bytes;
        let mem_value = mem_addr + reg_bytes;
        let mem_width = mem_value + reg_bytes;
        let is_write = mem_width + 1;
        let has_rd = is_write + 1;
        let has_mem = has_rd + 1;
        let valid = has_mem + 1;
        DiffOffsets { opcode, rd, rd_value, mem_addr, mem_value, mem_width, is_write, has_rd, has_mem, valid }
    }

    /// Whether the guest registers are 32 bits wide.
    pub(crate) fn rv32(&self) -> (r: bool)
        ensures
            r == self.is_rv32(),
    {
        match self.config.xlen {
            Xlen::Rv32 => true,
            Xlen::Rv64 => false,
        }
    }

    /// Store the traced pc at the start of the tracer record.
    fn emit_trace_pc_store(&mut self, tracer_base: usize, tmp: &str, tmp32: &str, pc: u64)
        requires
            is_w_reg(tmp@) ==> pc <= 0xFFFF_FFFFu64,
        ensures
            final(self).out@ == old(self).out@ + trace_pc_store_text(
                tracer_base as int,
                tmp@,
                tmp32@,
                pc,
                old(self).is_rv32(),
            ),
            old(self).keeps(*final(self)),
    {
        let ghost start = self.out@;
        self.load_imm(tmp, pc);
        if self.rv32() {
            self.emit_mem_op("str", tmp32, STATE_PTR, tracer_base);
        } else {
            self.emit_mem_op("str", tmp, STATE_PTR, tracer_base);
        }
        assert(self.out@ =~= start + trace_pc_store_text(
            tracer_base as int,
            tmp@,
            tmp32@,
            pc,
            self.is_rv32(),
        ));
    }

    /// Store the traced opcode.
    fn emit_trace_opcode_store(&mut self, tracer_base: usize, tmp32: &str, opcode: u32, offsets: &DiffOffsets)
        requires
            tracer_base + offsets.opcode <= usize::MAX,
        ensures
            final(self).out@ == old(self).out@ + trace_opcode_store_text(
                tracer_base as int,
                tmp32@,
                opcode,
                *offsets,
            ),
            old(self).keeps(*final(self)),
    {
        let ghost start = self.out@;
        self.load_imm(tmp32, opcode as u64);
        self.emit_mem_op("str", tmp32, STATE_PTR, tracer_base + offsets.opcode);
        assert(self.out@ =~= start + trace_opcode_store_text(
            tracer_base as int,
            tmp32@,
            opcode,
            *offsets,
        ));
    }

    /// Clear the traced register and memory values.
    fn emit_trace_clear_values(&mut self, tracer_base: usize, tmp32: &str, offsets: &DiffOffsets)
        requires
            tracer_base + offsets.rd <= usize::MAX,
            tracer_base + offsets.rd_value <= usize::MAX,
            tracer_base + offsets.mem_addr <= usize::MAX,
            tracer_base + offsets.mem_value <= usize::MAX,
        ensures
            final(self).out@ == old(self).out@ + trace_clear_values_text(
                tracer_base as int,
                tmp32@,
                *offsets,
                old(self).is_rv32(),
            ),
            old(self).keeps(*final(self)),
    {
        let ghost start = self.out@;
        let mut l = String::new();
        push_str(&mut l, "mov ");
        push_str(&mut l, tmp32);
        push_str(&mut l, ", #0");
        self.emit(l.as_str());
        self.emit_mem_op("strb", tmp32, STATE_PTR, tracer_base + offsets.rd);
        let ghost p = self.out@;
        let ghost l1 = line("mov "@ + tmp32@ + ", #0"@);
        let ghost l2 = state_op("strb"@, tmp32@, tracer_base + offsets.rd);
        let zero = if self.rv32() {
            tmp32
        } else {
            "xzr"
        };
        self.emit_mem_op("str", zero, STATE_PTR, tracer_base + offsets.rd_value);
        self.emit_mem_op("str", zero, STATE_PTR, tracer_base + offsets.mem_addr);
        self.emit_mem_op("str", zero, STATE_PTR, tracer_base + offsets.mem_value);
        proof {
            let a = state_op("str"@, zero@, tracer_base + offsets.rd_value);
            let b = state_op("str"@, zero@, tracer_base + offsets.mem_addr);
            let c = state_op("str"@, zero@, tracer_base + offsets.mem_value);
            lemma_concat_associative(start, l1 + l2, a + b + c);
            lemma_concat_associative(start, l1, l2);
            lemma_concat_associative(p, a + b, c);
            lemma_concat_associative(p, a, b);
        }
    }

    /// Clear the trace flags and mark the record valid.
    fn emit_trace_clear_flags(&mut self, tracer_base: usize, tmp32: &str, offsets: &DiffOffsets)
        requires
            tracer_base + offsets.mem_width <= usize::MAX,
            tracer_base + offsets.is_write <= usize::MAX,
            tracer_base + offsets.has_rd <= usize::MAX,
            tracer_base + offsets.has_mem <= usize::MAX,
            tracer_base + offsets.valid <= usize::MAX,
        ensures
            final(self).out@ == old(self).out@ + trace_clear_flags_text(
                tracer_base as int,
                tmp32@,
                *offsets,
            ),
            old(self).keeps(*final(self)),
    {
        let ghost start = self.out@;
        self.emit_mem_op("strb", tmp32, STATE_PTR, tracer_base + offsets.mem_width);
        self.emit_mem_op("strb", tmp32, STATE_PTR, tracer_base + offsets.is_write);
        self.emit_mem_op("strb", tmp32, STATE_PTR, tracer_base + offsets.has_rd);
        self.emit_mem_op("strb", tmp32, STATE_PTR, tracer_base + offsets.has_mem);
        let mut l = String::new();
        push_str(&mut l, "mov ");
        push_str(&mut l, tmp32);
        push_str(&mut l, ", #1");
        self.emit(l.as_str());
        self.emit_mem_op("strb", tmp32, STATE_PTR, tracer_base + offsets.valid);
        assert(self.out@ =~= start + trace_clear_flags_text(tracer_base as int, tmp32@, *offsets));
    }

    /// Record the pc and opcode of an instruction in the diff tracer and
    /// clear the rest of its record; nothing without the diff tracer.
    pub fn emit_trace_pc(&mut self, pc: u64, opcode: u32)
        requires
            old(self).wf(),
            old(self).is_rv32() ==> pc <= 0xFFFF_FFFFu64,
        ensures
            final(self).out@ == old(self).out@ + trace_pc_text(*old(self), pc, opcode),
            old(self).keeps(*final(self)),
    {
        if !self.diff_tracer_enabled() {
            return;
        }
        let ghost start = self.out@;
        let tracer_base = self.layout.offset_tracer;
        let offsets = self.diff_offsets();
        let tmp = self.temp1();
        let tmp32 = Self::reg_32(tmp);
        proof {
            reveal_strlit("w0");
            reveal_strlit("x0");
        }
        self.emit_trace_pc_store(tracer_base, tmp, tmp32.as_str(), pc);
        let ghost s1 = self.out@;
        self.emit_trace_opcode_store(tracer_base, tmp32.as_str(), opcode, &offsets);
        let ghost s2 = self.out@;
        self.emit_trace_clear_values(tracer_base, tmp32.as_str(), &offsets);
        let ghost s3 = self.out@;
        self.emit_trace_clear_flags(tracer_base, tmp32.as_str(), &offsets);
        assert(self.out@ =~= start + (s1.subrange(start.len() as int, s1.len() as int)) + (
        s2.subrange(s1.len() as int, s2.len() as int)) + (s3.subrange(
            s2.len() as int,
            s3.len() as int,
        )) + self.out@.subrange(s3.len() as int, self.out@.len() as int));
    }

    /// Record a register write in the diff tracer (not for x0); nothing
    /// without the diff tracer.
    pub fn emit_trace_reg_write(&mut self, reg: u8, val_reg: &str)
        requires
            old(self).wf(),
        ensures
            final(self).out@ == old(self).out@ + trace_reg_text(*old(self), reg, val_reg@),
            old(self).keeps(*final(self)),
    {
        if !self.diff_tracer_enabled() || reg == 0 {
            return;
        }
        let ghost start = self.out@;
        let tracer_base = self.layout.offset_tracer;
        let offsets = self.diff_offsets();
        let tmp = self.temp3();
        let tmp32 = Self::reg_32(tmp);
        let val = if self.rv32() {
            Self::reg_32(val_reg)
        } else {
            Self::reg_64(val_reg)
        };
        let mut l = String::new();
        push_str(&mut l, "mov ");
        push_str(&mut l, tmp32.as_str());
        push_str(&mut l, ", #");
        push_decimal(&mut l, reg as u64);
        self.emit(l.as_str());
        self.emit_mem_op("strb", tmp32.as_str(), STATE_PTR, tracer_base + offsets.rd);
        self.emit_mem_op("str", val.as_str(), STATE_PTR, tracer_base + offsets.rd_value);
        let mut m = String::new();
        push_str(&mut m, "mov ");
        push_str(&mut m, tmp32.as_str());
        push_str(&mut m, ", #1");
        self.emit(m.as_str());
        self.emit_mem_op("strb", tmp32.as_str(), STATE_PTR, tracer_base + offsets.has_rd);
        proof {
            let base = tracer_base as int;
            lemma_append5(
                start,
                line("mov "@ + tmp32@ + ", #"@ + decimal(reg as nat)),
                state_op("strb"@, tmp32@, base + offsets.rd),
                state_op("str"@, val@, base + offsets.rd_value),
                line("mov "@ + tmp32@ + ", #1"@),
                state_op("strb"@, tmp32@, base + offsets.has_rd),
            );
        }
    }

    /// Move the traced memory value into the temporary, by access width.
    fn emit_trace_value_move(&mut self, tmp: &str, tmp32: &str, val_reg: &str, width: u8)
        ensures
            final(self).out@ == old(self).out@ + trace_value_move_text(
                tmp@,
                tmp32@,
                val_reg@,
                width,
                old(self).is_rv32(),
            ),
            old(self).keeps(*final(self)),
    {
        let ghost start = self.out@;
        let mut l = String::new();
        if width == 1 {
            push_str(&mut l, "uxtb ");
            push_str(&mut l, tmp32);
            push_str(&mut l, ", ");
            let v = Self::reg_32(val_reg);
            push_str(&mut l, v.as_str());
        } else if width == 2 {
            push_str(&mut l, "uxth ");
            push_str(&mut l, tmp32);
            push_str(&mut l, ", ");
            let v = Self::reg_32(val_reg);
            push_str(&mut l, v.as_str());
        } else if width == 8 && !self.rv32() {
            push_str(&mut l, "mov ");
            push_str(&mut l, tmp);
            push_str(&mut l, ", ");
            let v = Self::reg_64(val_reg);
            push_str(&mut l, v.as_str());
        } else {
            push_str(&mut l, "mov ");
            push_str(&mut l, tmp32);
            push_str(&mut l, ", ");
            let v = Self::reg_32(val_reg);
            push_str(&mut l, v.as_str());
        }
        self.emit(l.as_str());
        assert(self.out@ =~= start + trace_value_move_text(
            tmp@,
            tmp32@,
            val_reg@,
            width,
            self.is_rv32(),
        ));
    }

    /// Record a memory access in the diff tracer; nothing without the diff
    /// tracer.
    pub fn emit_trace_mem_access(&mut self, addr_reg: &str, val_reg: &str, width: u8, is_write: bool)
        requires
            old(self).wf(),
        ensures
            final(self).out@ == old(self).out@ + trace_mem_text(*old(self), addr_reg@, val_reg@, width, is_write),
            old(self).keeps(*final(self)),
    {
        if !self.diff_tracer_enabled() {
            return;
        }
        let ghost start = self.out@;
        let tracer_base = self.layout.offset_tracer;
        let offsets = self.diff_offsets();
        let rv32 = self.rv32();
        let addr = if rv32 {
            Self::reg_32(addr_reg)
        } else {
            Self::reg_64(addr_reg)
        };
        self.emit_mem_op("str", addr.as_str(), STATE_PTR, tracer_base + offsets.mem_addr);
        let tmp = self.temp3();
        let tmp32 = Self::reg_32(tmp);
        self.emit_trace_value_move(tmp, tmp32.as_str(), val_reg, width);
        let stored = if rv32 {
            Self::reg_32(tmp)
        } else if width == 8 {
            string_of(tmp)
        } else {
            Self::reg_64(tmp)
        };
        self.emit_mem_op("str", stored.as_str(), STATE_PTR, tracer_base + offsets.mem_value);
        let mut l = String::new();
        push_str(&mut l, "mov ");
        push_str(&mut l, tmp32.as_str());
        push_str(&mut l, ", #");
        push_decimal(&mut l, width as u64);
        self.emit(l.as_str());
        self.emit_mem_op("strb", tmp32.as_str(), STATE_PTR, tracer_base + offsets.mem_width);
        let write_flag: u64 = if is_write {
            1
        } else {
            0
        };
        let mut m = String::new();
        push_str(&mut m, "mov ");
        push_str(&mut m, tmp32.as_str());
        push_str(&mut m, ", #");
        push_decimal(&mut m, write_flag);
        self.emit(m.as_str());
        self.emit_mem_op("strb", tmp32.as_str(), STATE_PTR, tracer_base + offsets.is_write);
        let mut n = String::new();
        push_str(&mut n, "mov ");
        push_str(&mut n, tmp32.as_str());
        push_str(&mut n, ", #1");
        self.emit(n.as_str());
        self.emit_mem_op("strb", tmp32.as_str(), STATE_PTR, tracer_base + offsets.has_mem);
        proof {
            let base = tracer_base as int;
            lemma_append9(
                start,
                state_op("str"@, addr@, base + offsets.mem_addr),
                trace_value_move_text(tmp@, tmp32@, val_reg@, width, rv32),
                state_op("str"@, stored@, base + offsets.mem_value),
                line("mov "@ + tmp32@ + ", #"@ + decimal(width as nat)),
                state_op("strb"@, tmp32@, base + offsets.mem_width),
                line("mov "@ + tmp32@ + ", #"@ + decimal(write_flag as nat)),
                state_op("strb"@, tmp32@, base + offsets.is_write),
                line("mov "@ + tmp32@ + ", #1"@),
                state_op("strb"@, tmp32@, base + offsets.has_mem),
            );
        }
    }

    /// Whether `dest` names a 32-bit register.
    fn is_w(dest: &str) -> (r: bool)
        ensures
            r == is_w_reg(dest@),
    {
        let chars = str_chars(dest);
        chars.len() > 0 && chars[0] == 'w'
    }

    /// Emit `mov dest, #value`.
    fn emit_mov_imm(&mut self, dest: &str, value: u64)
        ensures
            final(self).out@ == old(self).out@ + line("mov "@ + dest@ + ", #"@ + decimal(value as nat)),
            old(self).keeps(*final(self)),
    {
        let mut l = String::new();
        push_str(&mut l, "mov ");
        push_str(&mut l, dest);
        push_str(&mut l, ", #");
        push_decimal(&mut l, value);
        self.emit(l.as_str());
    }

    /// Emit one `movz`/`movk` operation.
    fn emit_imm_op(&mut self, dest: &str, movk: bool, chunk: u64, shift: u64)
        ensures
            final(self).out@ == old(self).out@ + line(imm_op_text(dest@, (movk, chunk, shift))),
            old(self).keeps(*final(self)),
    {
        let mut l = String::new();
        if movk {
            push_str(&mut l, "movk ");
        } else {
            push_str(&mut l, "movz ");
        }
        push_str(&mut l, dest);
        push_str(&mut l, ", #");
        push_decimal(&mut l, chunk);
        push_str(&mut l, ", lsl #");
        push_decimal(&mut l, shift);
        self.emit(l.as_str());
    }

    /// Load an immediate value into a register. ARM64 moves 16 bits at a
    /// time, so larger values take a `movz` and up to three `movk`.
    pub fn load_imm(&mut self, dest: &str, value: u64)
        requires
            is_w_reg(dest@) ==> value <= 0xFFFF_FFFFu64,
        ensures
            final(self).out@ == old(self).out@ + load_imm_text(dest@, value),
            old(self).keeps(*final(self)),
    {
        if value == 0 {
            let mut l = String::new();
            push_str(&mut l, "mov ");
            push_str(&mut l, dest);
            push_str(&mut l, ", #0");
            self.emit(l.as_str());
            return;
        }
        if value <= 0xFFFF {
            self.emit_mov_imm(dest, value);
            return;
        }
        let ghost start = self.out@;
        if Self::is_w(dest) {
            let mut l = String::new();
            push_str(&mut l, "movz ");
            push_str(&mut l, dest);
            push_str(&mut l, ", #");
            push_decimal(&mut l, value & 0xFFFF);
            self.emit(l.as_str());
            if (value >> 16) != 0 {
                let mut m = String::new();
                push_str(&mut m, "movk ");
                push_str(&mut m, dest);
                push_str(&mut m, ", #");
                push_decimal(&mut m, (value >> 16) & 0xFFFF);
                push_str(&mut m, ", lsl #16");
                self.emit(m.as_str());
            }
            assert(self.out@ =~= start + load_imm_text(dest@, value));
            return;
        }
        let ghost goal = start + imm_ops_text(dest@, imm_ops(value, 0, false));
        let ghost before = *self;
        let mut emitted = false;
        let mut k: u64 = 0;
        while k < 4
            invariant
                k <= 4,
                self.out@ + imm_ops_text(dest@, imm_ops(value, k as nat, emitted)) == goal,
                !emitted ==> imm_ops(value, k as nat, false) == imm_ops(value, 0, false),
                emitted ==> imm_ops(value, 0, false).len() > 0,
                before.keeps(*self),
            decreases 4 - k,
        {
            let shift = k * 16;
            let chunk = (value >> shift) & 0xFFFF;
            assert(chunk == chunk_at(value, shift));
            assert(shift == (16 * (k as nat)) as u64);
            if chunk != 0 {
                let ghost op = (emitted, chunk, shift);
                let ghost rest = imm_ops(value, (k + 1) as nat, true);
                assert(imm_ops(value, k as nat, emitted) == seq![op] + rest);
                assert((seq![op] + rest).drop_first() =~= rest);
                assert((seq![op] + rest)[0] == op);
                self.emit_imm_op(dest, emitted, chunk, shift);
                emitted = true;
            }
            k += 1;
        }
        if !emitted {
            let mut l = String::new();
            push_str(&mut l, "mov ");
            push_str(&mut l, dest);
            push_str(&mut l, ", #0");
            self.emit(l.as_str());
        }
        assert(self.out@ =~= start + load_imm_text(dest@, value));
    }

    /// Check whether the low `size` bits of `value` are a rotated run of ones
    /// (neither all zeros nor all ones).
    pub fn is_rotated_mask(value: u64, size: u32) -> (r: bool)
        ensures
            r == rotated_mask(value, size as u64),
    {
        if size == 0 || size > 64 {
            return false;
        }
        let mask: u64 = if size == 64 {
            0xFFFF_FFFF_FFFF_FFFFu64
        } else {
            !(0xFFFF_FFFF_FFFF_FFFFu64 << size)
        };
        assert(mask == size_mask(size as u64));
        let v = value & mask;
        if v == 0 || v == mask {
            return false;
        }
        proof {
            let sz = size as u64;
            assert((value & mask) & mask == value & mask) by (bit_vector);
        }
        let mut rot: u32 = 0;
        while rot < size
            invariant
                0 < size <= 64,
                rot <= size,
                mask == size_mask(size as u64),
                v == value & mask,
                v & mask == v,
                v != 0,
                v != mask,
                forall|q: u64| q < rot ==> !#[trigger] is_low_run(rotate_field(v, q, size as u64)),
            decreases size - rot,
        {
            let r = if rot == 0 {
                v
            } else {
                ((v >> rot) | (v << (size - rot))) & mask
            };
            assert(r == rotate_field(v, rot as u64, size as u64));
            proof {
                lemma_rotate_not_full(v, rot as u64, size as u64);
            }
            if (r & (r + 1)) == 0 {
                assert(is_low_run(rotate_field(v, rot as u64, size as u64)));
                return true;
            }
            rot += 1;
        }
        false
    }

    /// Check whether an immediate can be encoded as an ARM64 logical
    /// immediate; for a 32-bit operation only the low 32 bits are given.
    pub fn is_logical_imm(value: u64, is_32: bool) -> (r: bool)
        requires
            is_32 ==> value <= 0xFFFF_FFFFu64,
        ensures
            r == logical_imm(value, is_32),
    {
        let bits: u64 = if is_32 {
            32
        } else {
            64
        };
        let v = value;
        if v == 0 {
            return false;
        }
        let full_mask: u64 = if bits == 64 {
            0xFFFF_FFFF_FFFF_FFFFu64
        } else {
            !(0xFFFF_FFFF_FFFF_FFFFu64 << bits)
        };
        assert(full_mask == size_mask(bits));
        if v == full_mask {
            return false;
        }
        let mut size: u64 = 2;
        while size <= bits
            invariant
                bits == 32 || bits == 64,
                size == 2 || size == 4 || size == 8 || size == 16 || size == 32 || size == 64
                    || size == 128,
                size <= 2 * bits,
                logical_from(v, 2, bits) == logical_from(v, size, bits),
                bits == (if is_32 {
                    32u64
                } else {
                    64u64
                }),
                v == value,
                v != 0,
                v != size_mask(bits),
            decreases 129 - size,
        {
            let mask: u64 = if size == 64 {
                0xFFFF_FFFF_FFFF_FFFFu64
            } else {
                !(0xFFFF_FFFF_FFFF_FFFFu64 << size)
            };
            assert(mask == size_mask(size));
            let pattern = v & mask;
            let mut replicated: u64 = 0;
            let mut shift: u64 = 0;
            while shift < bits
                invariant
                    bits == 32 || bits == 64,
                    size == 2 || size == 4 || size == 8 || size == 16 || size == 32 || size
                        == 64,
                    size <= bits,
                    shift <= bits,
                    (bits - shift) % (size as int) == 0,
                    replicate(replicated, pattern, size as nat, bits as nat, shift as nat)
                        == replicate(0, pattern, size as nat, bits as nat, 0),
                decreases bits - shift,
            {
                replicated = replicated | (pattern << shift);
                shift = shift + size;
            }
            assert(replicated == replicate(0, pattern, size as nat, bits as nat, 0));
            if replicated == v && Self::is_rotated_mask(pattern, size as u32) {
                assert(logical_at(v, size, bits));
                assert(logical_from(v, size, bits));
                return true;
            }
            size = size * 2;
        }
        false
    }
}

} // verus!
