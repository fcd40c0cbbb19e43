//! Expression lowering for the ARM64 backend: an IR expression becomes
//! instructions that leave its value in a register.
//!
//! What lowering emits is stated over the part of the emitter that it
//! changes (a `Gen`: the text, the label counter, the cold-register cache and
//! the spill depth) and the part it only reads (the emitter with that part
//! set aside, see `fx`): each lowering function is described by a spec
//! function from the changing part before to the changing part after and the
//! register that holds the result.

use vstd::prelude::*;

use super::emitter::{
    add_offset_text, bounds_check_text, cache_name, is_w_reg, load_imm_text, logical_imm,
    mask_text, reg32, reg64, reg_off, trace_mem_text, TEMP_SLOTS, TEMP_SLOT_BYTES,
};
use super::lower::{addsub_parts, cpop32_text, cpop64_text, load_text, op2, op3, orc8_text};
use super::{label_name, line, mem_op, Arm64Emitter};
use crate::config::{AddressMode, InstretMode};
use crate::ir::{BinaryOp, Expr, ReadExpr, TernaryOp, UnaryOp};
use crate::registers::{INSTRET, MEMORY_PTR, STATE_PTR};
use crate::text::{decimal, hex_padded, push_decimal, push_str, str_eq, string_of};

verus! {

/// The part of the emitter that lowering changes: the text, the label
/// counter, the guest register held in the cold cache, the spill depth.
pub type Gen = (Seq<char>, usize, Option<u8>, usize);

/// The changing part of an emitter.
pub open spec fn gen(e: Arm64Emitter) -> Gen {
    (e.out@, e.label_counter, e.cold_cache, e.spill_depth)
}

/// The emitter with its changing part set aside: what lowering reads.
pub open spec fn fx(e: Arm64Emitter) -> Arm64Emitter {
    Arm64Emitter { out: arbitrary(), label_counter: 0, cold_cache: None, spill_depth: 0, ..e }
}

/// Text appended.
pub open spec fn put(g: Gen, t: Seq<char>) -> Gen {
    (g.0 + t, g.1, g.2, g.3)
}

/// A label line.
pub open spec fn label_line(name: Seq<char>) -> Seq<char> {
    name + ":\n"@
}

/// A comment line.
pub open spec fn comment_line(c: Seq<char>) -> Seq<char> {
    "    // "@ + c + "\n"@
}

/// `mov dest, #0`.
pub open spec fn zero_line(dest: Seq<char>) -> Seq<char> {
    line("mov "@ + dest + ", #0"@)
}

/// Whether a register name starts with `c`.
pub open spec fn starts(r: Seq<char>, c: char) -> bool {
    r.len() > 0 && r[0] == c
}

/// A register narrowed to its 32-bit name for a 32-bit guest when it is
/// named as a 64-bit one.
pub open spec fn narrow_x(f: Arm64Emitter, r: Seq<char>) -> Seq<char> {
    if f.is_rv32() && starts(r, 'x') {
        reg32(r)
    } else {
        r
    }
}

/// The register width's name of a register for a 32-bit guest.
pub open spec fn width_reg(f: Arm64Emitter, r: Seq<char>) -> Seq<char> {
    if f.is_rv32() {
        reg32(r)
    } else {
        r
    }
}

/// The temporaries (`w0`..`w2` or `x0`..`x2`).
pub open spec fn tmp1(f: Arm64Emitter) -> Seq<char> {
    if f.is_rv32() {
        "w0"@
    } else {
        "x0"@
    }
}

pub open spec fn tmp2(f: Arm64Emitter) -> Seq<char> {
    if f.is_rv32() {
        "w1"@
    } else {
        "x1"@
    }
}

pub open spec fn tmp3(f: Arm64Emitter) -> Seq<char> {
    if f.is_rv32() {
        "w2"@
    } else {
        "x2"@
    }
}

/// The size of an expression: its number of nodes.
pub open spec fn esize(x: Expr) -> nat
    decreases x, 0int,
{
    match x {
        Expr::Read(r) => match r {
            ReadExpr::Mem { base, .. } => 1 + esize(*base),
            ReadExpr::MemAddr { addr, .. } => 1 + esize(*addr),
            _ => 1,
        },
        Expr::Unary { op, expr } => 1 + esize(*expr),
        Expr::Binary { op, left, right } => 1 + esize(*left) + esize(*right),
        Expr::Ternary { op, first, second, third } => 1 + esize(*first) + esize(*second) + esize(
            *third,
        ),
        Expr::ExternCall { name, args } => 1 + sizes(args@, args@.len() as int),
        _ => 1,
    }
}

/// The sizes of the first `n` expressions, summed.
pub open spec fn sizes(xs: Seq<Expr>, n: int) -> nat
    decreases xs, n,
{
    if n <= 0 || n > xs.len() {
        0
    } else {
        sizes(xs, n - 1) + esize(xs[n - 1])
    }
}

/// The size of a read.
pub open spec fn rsize(r: ReadExpr) -> nat {
    esize(Expr::Read(r))
}

/// Whether every immediate and pc constant in an expression fits in 32 bits.
pub open spec fn fits32(x: Expr) -> bool
    decreases x, 0int,
{
    match x {
        Expr::Imm(v) => v <= 0xFFFF_FFFF,
        Expr::PcConst(v) => v <= 0xFFFF_FFFF,
        Expr::Read(r) => match r {
            ReadExpr::Mem { base, .. } => fits32(*base),
            ReadExpr::MemAddr { addr, .. } => fits32(*addr),
            _ => true,
        },
        Expr::Unary { op, expr } => fits32(*expr),
        Expr::Binary { op, left, right } => fits32(*left) && fits32(*right),
        Expr::Ternary { op, first, second, third } => fits32(*first) && fits32(*second) && fits32(
            *third,
        ),
        Expr::ExternCall { name, args } => all_fit32(args@, args@.len() as int),
        _ => true,
    }
}

/// Whether the first `n` expressions fit in 32 bits.
pub open spec fn all_fit32(xs: Seq<Expr>, n: int) -> bool
    decreases xs, n,
{
    if n <= 0 || n > xs.len() {
        true
    } else {
        all_fit32(xs, n - 1) && fits32(xs[n - 1])
    }
}

/// What lowering an expression needs of the emitter: its invariant, room
/// for the labels it may take, and immediates of the register width.
pub open spec fn lowerable(e: Arm64Emitter, x: Expr, dest: Seq<char>) -> bool {
    &&& e.wf()
    &&& e.label_counter + 4 * esize(x) <= usize::MAX
    &&& (e.is_rv32() || is_w_reg(dest)) ==> fits32(x)
}

/// Each of the first `n` sizes is at most their sum, and so is every
/// shorter sum.
pub proof fn lemma_sizes(xs: Seq<Expr>, n: int, k: int)
    requires
        0 <= k < n <= xs.len(),
    ensures
        esize(xs[k]) <= sizes(xs, n),
        sizes(xs, k) + esize(xs[k]) <= sizes(xs, n),
    decreases n,
{
    if k < n - 1 {
        lemma_sizes(xs, n - 1, k);
    }
}

/// The first `n` expressions fit in 32 bits when all do.
pub proof fn lemma_all_fit32(xs: Seq<Expr>, n: int, k: int)
    requires
        0 <= k < n <= xs.len(),
        all_fit32(xs, n),
    ensures
        fits32(xs[k]),
    decreases n,
{
    if k < n - 1 {
        lemma_all_fit32(xs, n - 1, k);
    }
}

/// Every expression has at least one node.
pub proof fn lemma_esize_pos(x: Expr)
    ensures
        esize(x) >= 1,
{
}

/// The name under which an operation appears in a comment.
pub open spec fn binary_name(op: BinaryOp) -> Seq<char> {
    match op {
        BinaryOp::Add => "Add"@,
        BinaryOp::Sub => "Sub"@,
        BinaryOp::Mul => "Mul"@,
        BinaryOp::And => "And"@,
        BinaryOp::Or => "Or"@,
        BinaryOp::Xor => "Xor"@,
        BinaryOp::Sll => "Sll"@,
        BinaryOp::Srl => "Srl"@,
        BinaryOp::Sra => "Sra"@,
        BinaryOp::Eq => "Eq"@,
        BinaryOp::Ne => "Ne"@,
        BinaryOp::Lt => "Lt"@,
        BinaryOp::Ge => "Ge"@,
        BinaryOp::Ltu => "Ltu"@,
        BinaryOp::Geu => "Geu"@,
        BinaryOp::Div => "Div"@,
        BinaryOp::DivU => "DivU"@,
        BinaryOp::Rem => "Rem"@,
        BinaryOp::RemU => "RemU"@,
        BinaryOp::AddW => "AddW"@,
        BinaryOp::SubW => "SubW"@,
        BinaryOp::MulW => "MulW"@,
        BinaryOp::DivW => "DivW"@,
        BinaryOp::DivUW => "DivUW"@,
        BinaryOp::RemW => "RemW"@,
        BinaryOp::RemUW => "RemUW"@,
        BinaryOp::SllW => "SllW"@,
        BinaryOp::SrlW => "SrlW"@,
        BinaryOp::SraW => "SraW"@,
        BinaryOp::MulH => "MulH"@,
        BinaryOp::MulHSU => "MulHSU"@,
        BinaryOp::MulHU => "MulHU"@,
        BinaryOp::Pack => "Pack"@,
        BinaryOp::Pack8 => "Pack8"@,
        BinaryOp::Pack16 => "Pack16"@,
    }
}

/// The name under which a unary operation appears in a comment.
pub open spec fn unary_name(op: UnaryOp) -> Seq<char> {
    match op {
        UnaryOp::Not => "Not"@,
        UnaryOp::Neg => "Neg"@,
        UnaryOp::Sext8 => "Sext8"@,
        UnaryOp::Sext16 => "Sext16"@,
        UnaryOp::Sext32 => "Sext32"@,
        UnaryOp::Zext8 => "Zext8"@,
        UnaryOp::Zext16 => "Zext16"@,
        UnaryOp::Zext32 => "Zext32"@,
        UnaryOp::Clz => "Clz"@,
        UnaryOp::Ctz => "Ctz"@,
        UnaryOp::Cpop => "Cpop"@,
        UnaryOp::Clz32 => "Clz32"@,
        UnaryOp::Ctz32 => "Ctz32"@,
        UnaryOp::Cpop32 => "Cpop32"@,
        UnaryOp::Orc8 => "Orc8"@,
        UnaryOp::Rev8 => "Rev8"@,
        UnaryOp::Brev8 => "Brev8"@,
        UnaryOp::Zip => "Zip"@,
        UnaryOp::Unzip => "Unzip"@,
    }
}

/// The ALU mnemonic of the operations that have one.
pub open spec fn alu_name(op: BinaryOp) -> Seq<char> {
    match op {
        BinaryOp::Add => "add"@,
        BinaryOp::Sub => "sub"@,
        BinaryOp::And => "and"@,
        BinaryOp::Or => "orr"@,
        BinaryOp::Xor => "eor"@,
        BinaryOp::Mul => "mul"@,
        _ => ""@,
    }
}

/// Whether an operation is one of the six with an ALU mnemonic.
pub open spec fn is_alu(op: BinaryOp) -> bool {
    op == BinaryOp::Add || op == BinaryOp::Sub || op == BinaryOp::And || op == BinaryOp::Or || op
        == BinaryOp::Xor || op == BinaryOp::Mul
}

/// Whether an operation is a bitwise logical one.
pub open spec fn is_logical(op: BinaryOp) -> bool {
    op == BinaryOp::And || op == BinaryOp::Or || op == BinaryOp::Xor
}

/// An immediate of the guest width as a signed 64-bit value.
pub open spec fn signed_of(f: Arm64Emitter, v: u64) -> i64 {
    if !f.is_rv32() {
        v as i64
    } else if v >= 0x8000_0000 {
        (v - 0x1_0000_0000) as i64
    } else {
        v as i64
    }
}

/// `add`/`sub` of `src` and a signed immediate that has a 12-bit encoding.
pub open spec fn addsub_line(op: BinaryOp, d: Seq<char>, src: Seq<char>, s: i64, parts: (u16, bool)) -> Seq<
    char,
> {
    let mnem = if (op == BinaryOp::Add) == (s >= 0) {
        "add"@
    } else {
        "sub"@
    };
    op3(
        mnem,
        d,
        src,
        "#"@ + decimal(parts.0 as nat) + if parts.1 {
            ", lsl #12"@
        } else {
            Seq::empty()
        },
    )
}

/// Whether an expression needs the first temporary while it is lowered.
pub open spec fn needs_temp1(x: Expr) -> bool {
    match x {
        Expr::Read(r) => r is Mem || r is MemAddr,
        Expr::Unary { .. } => true,
        Expr::Binary { .. } => true,
        Expr::Ternary { .. } => true,
        Expr::ExternCall { .. } => true,
        _ => false,
    }
}

/// Whether an expression is the constant zero (an immediate zero or `x0`).
pub open spec fn is_zero(x: Expr) -> bool {
    match x {
        Expr::Imm(v) => v == 0,
        Expr::Read(r) => r == ReadExpr::Reg(0),
        _ => false,
    }
}

/// A spill slot taken.
pub open spec fn alloc_gen(g: Gen) -> (Gen, Option<usize>) {
    if g.3 + 4 < TEMP_SLOTS {
        ((g.0, g.1, g.2, (g.3 + 1) as usize), Some(((4 + g.3) * TEMP_SLOT_BYTES) as usize))
    } else {
        (g, None)
    }
}

/// A spill slot given back.
pub open spec fn release_gen(g: Gen) -> Gen {
    (
        g.0,
        g.1,
        g.2,
        if g.3 > 0 {
            (g.3 - 1) as usize
        } else {
            0
        },
    )
}

/// A fresh label with a prefix.
pub open spec fn label_gen(g: Gen, prefix: Seq<char>) -> (Gen, Seq<char>) {
    ((g.0, (g.1 + 1) as usize, g.2, g.3), label_name(prefix, g.1 + 1))
}

/// A guest register read into `temp` (or found in its ARM64 register or
/// the cold cache).
pub open spec fn load_rv_gen(f: Arm64Emitter, g: Gen, reg: u8, temp: Seq<char>) -> (Gen, Seq<char>) {
    if reg == 0 {
        (put(g, zero_line(temp)), temp)
    } else if f.hot_name(reg as int) is Some {
        (g, f.hot_name(reg as int)->0@)
    } else if g.2 == Some(reg) {
        (g, cache_name(f.is_rv32()))
    } else {
        (
            (
                g.0 + line(
                    mem_op(
                        "ldr"@,
                        cache_name(f.is_rv32()),
                        STATE_PTR@,
                        reg_off(f.layout, reg as int),
                    ),
                ),
                g.1,
                Some(reg),
                g.3,
            ),
            cache_name(f.is_rv32()),
        )
    }
}

/// A guest register read as a 64-bit address into `t64`.
pub open spec fn as_addr_reg_gen(f: Arm64Emitter, g: Gen, reg: u8, t64: Seq<char>) -> (Gen, Seq<char>) {
    if reg == 0 {
        (put(g, zero_line(t64)), t64)
    } else if f.hot_name(reg as int) is Some {
        if f.is_rv32() {
            (put(g, line("mov "@ + t64 + ", "@ + reg64(f.hot_name(reg as int)->0@))), t64)
        } else {
            (g, f.hot_name(reg as int)->0@)
        }
    } else {
        (
            put(
                g,
                line(mem_op("ldr"@, width_reg(f, t64), STATE_PTR@, reg_off(f.layout, reg as int))),
            ),
            t64,
        )
    }
}

/// The address checks and masking of the address mode on `a`.
pub open spec fn apply_gen(f: Arm64Emitter, g: Gen, a: Seq<char>) -> Gen {
    let bounds = f.config.address_mode == AddressMode::Bounds;
    (
        g.0 + (if bounds {
            bounds_check_text(reg64(a), f.config.memory_bits, label_name("bounds_ok"@, g.1 + 1))
        } else {
            seq![]
        }) + (if f.config.address_mode != AddressMode::Unchecked {
            mask_text(reg64(a), f.memory_mask)
        } else {
            seq![]
        }),
        if bounds {
            (g.1 + 1) as usize
        } else {
            g.1
        },
        g.2,
        g.3,
    )
}

/// The instret counter read into `dest`.
pub open spec fn instret_code(f: Arm64Emitter, dest: Seq<char>) -> Seq<char> {
    if f.config.instret_mode != InstretMode::Off {
        if f.is_rv32() {
            op2("mov"@, dest, reg32(INSTRET@))
        } else {
            op2("mov"@, dest, INSTRET@)
        }
    } else {
        line(mem_op("ldr"@, dest, STATE_PTR@, f.layout.offset_instret as int))
    }
}

/// A CSR read into `dest`.
pub open spec fn csr_code(f: Arm64Emitter, csr: u16, dest: Seq<char>) -> Seq<char> {
    if csr == 0xC00 || csr == 0xC02 || csr == 0xB00 || csr == 0xB02 {
        instret_code(f, dest)
    } else if (csr == 0xC80 || csr == 0xC82 || csr == 0xB80 || csr == 0xB82) && f.is_rv32() {
        if f.config.instret_mode != InstretMode::Off {
            op3("lsr"@, reg64(dest), INSTRET@, "#32"@)
        } else {
            line(mem_op("ldr"@, dest, STATE_PTR@, f.layout.offset_instret + 4))
        }
    } else {
        "    // "@ + "CSR 0x"@ + hex_padded(csr as nat, 3) + " not implemented"@ + "\n"@ + zero_line(
            dest,
        )
    }
}

/// A read of a state field, a temporary or another simple source into `dest`.
pub open spec fn simple_read_code(f: Arm64Emitter, r: ReadExpr, dest: Seq<char>) -> Seq<char> {
    match r {
        ReadExpr::Csr(csr) => csr_code(f, csr, dest),
        ReadExpr::Cycle => instret_code(f, dest),
        ReadExpr::Instret => instret_code(f, dest),
        ReadExpr::Pc => line(mem_op("ldr"@, dest, STATE_PTR@, f.layout.offset_pc as int)),
        ReadExpr::Exited => line(
            mem_op("ldrb"@, reg32(dest), STATE_PTR@, f.layout.offset_has_exited as int),
        ),
        ReadExpr::ExitCode => line(
            mem_op("ldrb"@, reg32(dest), STATE_PTR@, f.layout.offset_exit_code as int),
        ),
        ReadExpr::ResAddr => line(
            mem_op("ldr"@, width_reg(f, dest), STATE_PTR@, f.layout.offset_reservation_addr as int),
        ),
        ReadExpr::ResValid => line(
            mem_op("ldrb"@, reg32(dest), STATE_PTR@, f.layout.offset_reservation_valid as int),
        ),
        ReadExpr::Temp(idx) => if idx < TEMP_SLOTS {
            line(mem_op("ldr"@, width_reg(f, dest), "sp"@, idx * TEMP_SLOT_BYTES))
        } else {
            "    // "@ + "temp "@ + decimal(idx as nat) + " out of range"@ + "\n"@ + zero_line(dest)
        },
        ReadExpr::TraceIdx => comment_line("unsupported expr: "@ + "Read(TraceIdx)"@) + zero_line(
            dest,
        ),
        ReadExpr::PcIdx => comment_line("unsupported expr: "@ + "Read(PcIdx)"@) + zero_line(dest),
        _ => Seq::empty(),
    }
}

/// A variable read into `dest`: only `state` is known.
pub open spec fn var_code(f: Arm64Emitter, name: Seq<char>, dest: Seq<char>) -> Seq<char> {
    if name == "state"@ {
        if f.is_rv32() {
            op2("mov"@, reg32(dest), reg32(STATE_PTR@))
        } else {
            op2("mov"@, dest, STATE_PTR@)
        }
    } else {
        "    // "@ + "unsupported var: "@ + name + "\n"@ + zero_line(dest)
    }
}

/// An immediate materialized in `dest`.
pub open spec fn imm_code(dest: Seq<char>, v: u64) -> Seq<char> {
    if v == 0 {
        zero_line(dest)
    } else {
        load_imm_text(dest, v)
    }
}

/// Whether perf mode reads the expression as zero.
pub open spec fn perf_zero(f: Arm64Emitter, x: Expr) -> bool {
    f.config.perf_mode && match x {
        Expr::Read(r) => r is Csr || r is Cycle || r is Instret,
        _ => false,
    }
}

/// The saving of the hot registers (and the instret counter) to the state.
pub open spec fn save_hot_gen(f: Arm64Emitter, g: Gen, op: Seq<char>) -> Gen {
    (
        g.0 + super::emitter::hot_lines(
            op,
            crate::registers::hot_pairs(f.reg_map.hot_list(), f.reg_map.narrow(), 32),
            f.layout,
        ) + if f.config.instret_mode != InstretMode::Off {
            line(mem_op(op, INSTRET@, STATE_PTR@, f.layout.offset_instret as int))
        } else {
            seq![]
        },
        g.1,
        None,
        g.3,
    )
}

/// The register that carries argument `idx` of a helper call.
pub open spec fn arg_reg(wide: bool, idx: int) -> Seq<char> {
    if wide {
        seq!['x'] + decimal(idx as nat)
    } else {
        seq!['w'] + decimal(idx as nat)
    }
}

// ---------------------------------------------------------------------
// The lowering, as a function of the emitter's fixed part `f` and its
// changing part `g`.
// ---------------------------------------------------------------------

/// An expression lowered into `dest`: the new changing part and the
/// register that holds the value.
pub open spec fn expr_gen(f: Arm64Emitter, g: Gen, x: Expr, dest: Seq<char>) -> (Gen, Seq<char>)
    decreases 32 * esize(x) + 15,
{
    if perf_zero(f, x) {
        (put(g, zero_line(dest)), dest)
    } else {
        match x {
            Expr::Imm(v) => (put(g, imm_code(dest, v)), dest),
            Expr::Read(r) => read_gen(f, g, r, dest),
            Expr::PcConst(v) => (put(g, load_imm_text(dest, v)), dest),
            Expr::Var(name) => (put(g, var_code(f, name@, dest)), dest),
            Expr::Binary { op, left, right } => binary_gen(f, g, op, *left, *right, dest),
            Expr::Unary { op, expr } => unary_gen(f, g, op, *expr, dest),
            Expr::ExternCall { name, args } => extern_expr_gen(f, g, name@, args@, dest),
            Expr::Ternary { op, first, second, third } => select_gen(
                f,
                g,
                *first,
                *second,
                *third,
                dest,
            ),
        }
    }
}

/// An expression lowered as a 64-bit address into `x0`.
pub open spec fn as_addr_gen(f: Arm64Emitter, g: Gen, x: Expr) -> (Gen, Seq<char>)
    decreases 32 * esize(x) + 16,
{
    match x {
        Expr::Read(ReadExpr::Reg(reg)) => as_addr_reg_gen(f, g, reg, "x0"@),
        Expr::Imm(v) => (put(g, load_imm_text("x0"@, v)), "x0"@),
        _ => {
            let r = expr_gen(f, g, x, tmp1(f));
            let r64 = reg64(r.1);
            (
                if r64 != "x0"@ {
                    put(r.0, line("mov x0, "@ + r64))
                } else {
                    r.0
                },
                "x0"@,
            )
        },
    }
}

/// A read lowered into `dest`.
pub open spec fn read_gen(f: Arm64Emitter, g: Gen, r: ReadExpr, dest: Seq<char>) -> (Gen, Seq<char>)
    decreases 32 * rsize(r) + 14,
{
    match r {
        ReadExpr::Reg(reg) => load_rv_gen(f, g, reg, dest),
        ReadExpr::Mem { base, offset, width, signed } => mem_read_gen(
            f,
            g,
            *base,
            offset as int,
            width,
            signed,
            dest,
        ),
        ReadExpr::MemAddr { addr, width, signed } => mem_read_gen(f, g, *addr, 0, width, signed, dest),
        _ => (put(g, simple_read_code(f, r, dest)), dest),
    }
}

/// A memory read at `base + offset` lowered into `dest`.
pub open spec fn mem_read_gen(
    f: Arm64Emitter,
    g: Gen,
    base: Expr,
    offset: int,
    width: u8,
    signed: bool,
    dest: Seq<char>,
) -> (Gen, Seq<char>)
    decreases 32 * (1 + esize(base)) + 13,
{
    let a = as_addr_gen(f, g, base);
    let g2 = if offset != 0 {
        put(a.0, add_offset_text("x0"@, a.1, offset as i64))
    } else if a.1 != "x0"@ {
        put(a.0, line("mov x0, "@ + a.1))
    } else {
        a.0
    };
    let g3 = apply_gen(f, g2, "x0"@);
    let g4 = put(g3, load_text(MEMORY_PTR@ + ", x0"@, dest, width, signed, f.is_rv32()));
    (put(g4, trace_mem_text(f, "x0"@, dest, width, false)), dest)
}

/// A selection between two values lowered into `dest`: both values go to
/// stack slots, then the condition picks one.
pub open spec fn select_gen(f: Arm64Emitter, g: Gen, c: Expr, t: Expr, e: Expr, dest: Seq<char>) -> (
    Gen,
    Seq<char>,
)
    decreases 32 * (1 + esize(c) + esize(t) + esize(e)) + 13,
{
    let a = expr_gen(f, g, t, tmp1(f));
    let g1 = put(a.0, line(mem_op("str"@, width_reg(f, a.1), "sp"@, 0)));
    let b = expr_gen(f, g1, e, tmp1(f));
    let g2 = put(b.0, line(mem_op("str"@, width_reg(f, b.1), "sp"@, 8)));
    let k = expr_gen(f, g2, c, tmp1(f));
    let t1 = tmp2(f);
    let t2 = tmp3(f);
    (
        put(
            put(
                put(put(k.0, line(mem_op("ldr"@, t1, "sp"@, 0))), line(mem_op("ldr"@, t2, "sp"@, 8))),
                op2("cmp"@, k.1, "#0"@),
            ),
            line("csel "@ + dest + ", "@ + t1 + ", "@ + t2 + ", ne"@),
        ),
        dest,
    )
}

/// The instructions of a unary operation on `d` in place.
pub open spec fn unary_code(f: Arm64Emitter, x: Seq<char>, op: UnaryOp, d: Seq<char>) -> Seq<char> {
    let d32 = reg32(d);
    match op {
        UnaryOp::Neg => x + op2("neg"@, d, d),
        UnaryOp::Not => x + op2("mvn"@, d, d),
        UnaryOp::Sext8 => x + op2("sxtb"@, d, d32),
        UnaryOp::Sext16 => x + op2("sxth"@, d, d32),
        UnaryOp::Sext32 => x + op2("sxtw"@, reg64(d), d32),
        UnaryOp::Zext8 => x + op2("uxtb"@, d32, d32),
        UnaryOp::Zext16 => x + op2("uxth"@, d32, d32),
        UnaryOp::Zext32 => x + op2("mov"@, d32, d32),
        UnaryOp::Clz => x + op2("clz"@, d, d),
        UnaryOp::Ctz => x + op2("rbit"@, d, d) + op2("clz"@, d, d),
        UnaryOp::Cpop => if f.is_rv32() {
            cpop32_text(x, d32, reg32(tmp3(f)))
        } else {
            cpop64_text(x, d, tmp3(f))
        },
        UnaryOp::Clz32 => x + op2("clz"@, d32, d32),
        UnaryOp::Ctz32 => x + op2("rbit"@, d32, d32) + op2("clz"@, d32, d32),
        UnaryOp::Cpop32 => cpop32_text(x, d32, reg32(tmp3(f))),
        UnaryOp::Orc8 => if f.is_rv32() {
            orc8_text(x, d32, reg32(tmp3(f)), "#0x01010101"@)
        } else {
            orc8_text(x, d, tmp3(f), "#0x0101010101010101"@)
        },
        UnaryOp::Rev8 => x + op2("rev"@, d, d),
        _ => x + comment_line("unary op "@ + unary_name(op) + " not implemented"@) + op2("mov"@, d, d),
    }
}

/// A unary operation lowered into `dest`.
pub open spec fn unary_gen(f: Arm64Emitter, g: Gen, op: UnaryOp, inner: Expr, dest: Seq<char>) -> (
    Gen,
    Seq<char>,
)
    decreases 32 * (1 + esize(inner)) + 14,
{
    let a = expr_gen(f, g, inner, dest);
    let ir = if f.is_rv32() && starts(dest, 'w') && starts(a.1, 'x') {
        reg32(a.1)
    } else {
        a.1
    };
    let g1 = if ir != dest {
        put(a.0, op2("mov"@, dest, ir))
    } else {
        a.0
    };
    ((unary_code(f, g1.0, op, dest), g1.1, g1.2, g1.3), dest)
}

/// A helper call's value in `dest`.
pub open spec fn extern_expr_gen(f: Arm64Emitter, g: Gen, name: Seq<char>, args: Seq<Expr>, dest: Seq<
    char,
>) -> (Gen, Seq<char>)
    decreases 32 * (1 + sizes(args, args.len() as int)) + 14,
{
    let c = extern_call_gen(f, g, name, args);
    (
        if c.1 != dest {
            put(c.0, op2("mov"@, dest, c.1))
        } else {
            c.0
        },
        dest,
    )
}

/// A helper call: hot registers saved, the first eight arguments loaded
/// last to first, the call, hot registers restored; the value is in `w0`
/// or `x0`.
pub open spec fn extern_call_gen(f: Arm64Emitter, g: Gen, name: Seq<char>, args: Seq<Expr>) -> (
    Gen,
    Seq<char>,
)
    decreases 32 * (1 + sizes(args, args.len() as int)) + 13,
{
    let n = if args.len() < 8 {
        args.len() as int
    } else {
        8
    };
    let g1 = save_hot_gen(f, g, "str"@);
    proof {
        if n > 0 {
            lemma_sizes(args, args.len() as int, n - 1);
        }
    }
    let g2 = args_gen(f, g1, args, n);
    let g3 = put(g2, line("bl "@ + name));
    (save_hot_gen(f, g3, "ldr"@), if f.is_rv32() {
        "w0"@
    } else {
        "x0"@
    })
}

/// Arguments `k - 1` down to `0` loaded into their registers.
pub open spec fn args_gen(f: Arm64Emitter, g: Gen, args: Seq<Expr>, k: int) -> Gen
    decreases 32 * sizes(args, k) + 17,
{
    if k <= 0 || k > args.len() {
        g
    } else {
        proof {
            lemma_sizes(args, k, k - 1);
        }
        args_gen(f, arg_gen(f, g, args[k - 1], k - 1), args, k - 1)
    }
}

/// Argument `idx` loaded into its register.
pub open spec fn arg_gen(f: Arm64Emitter, g: Gen, arg: Expr, idx: int) -> Gen
    decreases 32 * esize(arg) + 16,
{
    let is_state = match arg {
        Expr::Var(name) => name@ == "state"@,
        _ => false,
    };
    let reg = arg_reg(!f.is_rv32() || is_state, idx);
    if is_state {
        put(g, op2("mov"@, reg, STATE_PTR@))
    } else {
        match arg {
            Expr::Read(ReadExpr::Reg(r)) => {
                let a = load_rv_gen(f, g, r, reg);
                if a.1 != reg {
                    put(a.0, op2("mov"@, reg, a.1))
                } else {
                    a.0
                }
            },
            Expr::Imm(v) => put(g, load_imm_text(reg, v)),
            _ => {
                let a = expr_gen(f, g, arg, tmp1(f));
                if a.1 != reg {
                    put(a.0, op2("mov"@, reg, a.1))
                } else {
                    a.0
                }
            },
        }
    }
}

/// The left operand spilled to a stack slot when the right one needs the
/// first temporary that holds it.
pub open spec fn spill_left_gen(f: Arm64Emitter, g: Gen, right: Expr, left: Seq<char>) -> (Gen, Option<
    usize,
>) {
    if !needs_temp1(right) || !(left == tmp1(f) || left == reg32(tmp1(f))) {
        (g, None)
    } else {
        let a = alloc_gen(g);
        match a.1 {
            Some(o) => (put(a.0, line(mem_op("str"@, width_reg(f, left), "sp"@, o as int))), a.1),
            None => (a.0, None),
        }
    }
}

/// A spilled left operand reloaded and its slot given back.
pub open spec fn restore_gen(f: Arm64Emitter, g: Gen, spill: Option<usize>, left: Seq<char>) -> Gen {
    match spill {
        None => g,
        Some(o) => release_gen(put(g, line(mem_op("ldr"@, width_reg(f, left), "sp"@, o as int)))),
    }
}

/// A binary operation lowered into `dest`: the first special form that
/// applies, else the general form.
pub open spec fn binary_gen(f: Arm64Emitter, g: Gen, op: BinaryOp, l: Expr, r: Expr, dest: Seq<char>) -> (
    Gen,
    Seq<char>,
)
    decreases 32 * (1 + esize(l) + esize(r)) + 14,
{
    match imm_early_gen(f, g, op, l, r, dest) {
        Some(res) => res,
        None => match inplace_hot_gen(f, g, op, l, r, dest) {
            Some(res) => res,
            None => match hot_regs_code(f, op, l, r, dest) {
                Some(t) => (put(g, t), dest),
                None => match addsub_imm_gen(f, g, op, l, r, dest) {
                    Some(res) => res,
                    None => general_gen(f, g, op, l, r, dest),
                },
            },
        },
    }
}

/// Operations with an immediate that need no arithmetic: adding zero,
/// masking with all ones, multiplying by one, or a zero result.
pub open spec fn imm_early_gen(f: Arm64Emitter, g: Gen, op: BinaryOp, l: Expr, r: Expr, dest: Seq<char>) -> Option<
    (Gen, Seq<char>),
>
    decreases 32 * (1 + esize(l) + esize(r)) + 13,
{
    match r {
        Expr::Imm(v) => {
            let full: u64 = if f.is_rv32() {
                0xFFFF_FFFF
            } else {
                0xFFFF_FFFF_FFFF_FFFF
            };
            let pass = ((op == BinaryOp::Add || op == BinaryOp::Sub || op == BinaryOp::Or || op
                == BinaryOp::Xor) && v == 0) || (op == BinaryOp::And && v == full) || (op
                == BinaryOp::Mul && v == 1);
            if pass {
                let a = expr_gen(f, g, l, dest);
                Some(
                    (
                        if a.1 != dest {
                            put(a.0, op2("mov"@, dest, a.1))
                        } else {
                            a.0
                        },
                        dest,
                    ),
                )
            } else if (op == BinaryOp::And || op == BinaryOp::Mul) && v == 0 {
                Some((put(g, zero_line(dest)), dest))
            } else {
                None
            }
        },
        _ => None,
    }
}

/// An immediate operand folded into an in-place operation on `dr`.
pub open spec fn inplace_imm_code(f: Arm64Emitter, op: BinaryOp, r: Expr, dr: Seq<char>) -> Option<
    Seq<char>,
> {
    match r {
        Expr::Imm(v) => if op == BinaryOp::Add || op == BinaryOp::Sub {
            let s = signed_of(f, v);
            match addsub_parts(s) {
                Some(parts) => Some(addsub_line(op, dr, dr, s, parts)),
                None => None,
            }
        } else if is_logical(op) && logical_imm(v, f.is_rv32()) {
            Some(op3(alu_name(op), dr, dr, "#"@ + decimal(v as nat)))
        } else {
            None
        },
        _ => None,
    }
}

/// An operation whose left operand is the hot register that is also the
/// destination, done in place.
pub open spec fn inplace_hot_gen(
    f: Arm64Emitter,
    g: Gen,
    op: BinaryOp,
    l: Expr,
    r: Expr,
    dest: Seq<char>,
) -> Option<(Gen, Seq<char>)>
    decreases 32 * (1 + esize(l) + esize(r)) + 12,
{
    if !is_alu(op) {
        None
    } else {
        match l {
            Expr::Read(ReadExpr::Reg(reg)) => match f.hot_name(reg as int) {
                Some(m) => if reg64(m@) != reg64(dest) {
                    None
                } else {
                    match inplace_imm_code(f, op, r, m@) {
                        Some(t) => Some((put(g, t), dest)),
                        None => {
                            let a = right_reg_gen(f, g, r, tmp2(f));
                            Some((put(a.0, op3(alu_name(op), m@, m@, a.1)), dest))
                        },
                    }
                },
                None => None,
            },
            _ => None,
        }
    }
}

/// The right operand in a register of the guest width.
pub open spec fn right_reg_gen(f: Arm64Emitter, g: Gen, r: Expr, t2: Seq<char>) -> (Gen, Seq<char>)
    decreases 32 * esize(r) + 16,
{
    let a = expr_gen(f, g, r, t2);
    (a.0, narrow_x(f, a.1))
}

/// An operation on a hot register and another hot register or an encodable
/// immediate, in one instruction.
pub open spec fn hot_regs_code(f: Arm64Emitter, op: BinaryOp, l: Expr, r: Expr, dest: Seq<char>) -> Option<
    Seq<char>,
> {
    if !is_alu(op) {
        None
    } else {
        match l {
            Expr::Read(ReadExpr::Reg(lreg)) => match f.hot_name(lreg as int) {
                Some(lm) => {
                    let ls = width_reg(f, lm@);
                    match r {
                        Expr::Read(ReadExpr::Reg(rreg)) => match f.hot_name(rreg as int) {
                            Some(rm) => Some(op3(alu_name(op), dest, ls, width_reg(f, rm@))),
                            None => None,
                        },
                        Expr::Imm(v) => if op == BinaryOp::Add || op == BinaryOp::Sub {
                            let s = signed_of(f, v);
                            match addsub_parts(s) {
                                Some(parts) => Some(addsub_line(op, dest, ls, s, parts)),
                                None => None,
                            }
                        } else if is_logical(op) && logical_imm(v, f.is_rv32()) {
                            Some(op3(alu_name(op), dest, ls, "#"@ + decimal(v as nat)))
                        } else {
                            None
                        },
                        _ => None,
                    }
                },
                None => None,
            },
            _ => None,
        }
    }
}

/// An addition or subtraction of an encodable immediate.
pub open spec fn addsub_imm_gen(f: Arm64Emitter, g: Gen, op: BinaryOp, l: Expr, r: Expr, dest: Seq<char>) -> Option<
    (Gen, Seq<char>),
>
    decreases 32 * (1 + esize(l) + esize(r)) + 11,
{
    if !(op == BinaryOp::Add || op == BinaryOp::Sub) {
        None
    } else {
        match r {
            Expr::Imm(v) => {
                let s = signed_of(f, v);
                match addsub_parts(s) {
                    Some(parts) => {
                        let a = expr_gen(f, g, l, tmp1(f));
                        Some((put(a.0, addsub_line(op, dest, narrow_x(f, a.1), s, parts)), dest))
                    },
                    None => None,
                }
            },
            _ => None,
        }
    }
}

/// The general form: left operand in the first temporary, then the special
/// operations, else the right operand (or a small immediate) and one
/// instruction.
pub open spec fn general_gen(f: Arm64Emitter, g: Gen, op: BinaryOp, l: Expr, r: Expr, dest: Seq<char>) -> (
    Gen,
    Seq<char>,
)
    decreases 32 * (1 + esize(l) + esize(r)) + 10,
{
    let t1 = tmp1(f);
    let t2 = tmp2(f);
    let a = expr_gen(f, g, l, t1);
    let lr = narrow_x(f, a.1);
    let g2 = if lr != t1 {
        put(a.0, op2("mov"@, t1, lr))
    } else {
        a.0
    };
    match special_gen(f, g2, op, r, dest) {
        Some(res) => res,
        None => {
            let s = spill_left_gen(f, g2, r, t1);
            let small = match r {
                Expr::Imm(v) => v <= 0xFFF,
                _ => false,
            };
            let b = if small {
                (s.0, "#"@ + decimal(r->Imm_0 as nat))
            } else {
                expr_gen(f, s.0, r, t2)
            };
            let rv = narrow_x(f, b.1);
            let g5 = restore_gen(f, b.0, s.1, t1);
            basic_gen(f, g5, op, r, dest, small, rv)
        },
    }
}

/// The operations with a lowering of their own: shifts, word arithmetic,
/// division and high multiplication.
pub open spec fn special_gen(f: Arm64Emitter, g: Gen, op: BinaryOp, r: Expr, dest: Seq<char>) -> Option<
    (Gen, Seq<char>),
>
    decreases 32 * esize(r) + 26,
{
    let t1 = tmp1(f);
    if op == BinaryOp::Sll || op == BinaryOp::Srl || op == BinaryOp::Sra {
        Some(shift_gen(f, g, op, r, t1, dest))
    } else if op == BinaryOp::SllW || op == BinaryOp::SrlW || op == BinaryOp::SraW {
        Some(shift_word_gen(f, g, op, r, t1, dest))
    } else if op == BinaryOp::AddW || op == BinaryOp::SubW || op == BinaryOp::MulW {
        Some(word_arith_gen(f, g, op, r, dest))
    } else if op == BinaryOp::Div || op == BinaryOp::DivU || op == BinaryOp::Rem || op
        == BinaryOp::RemU {
        Some(div_gen(f, g, op, r, t1, dest))
    } else if op == BinaryOp::DivW || op == BinaryOp::DivUW || op == BinaryOp::RemW || op
        == BinaryOp::RemUW {
        Some(div_word_gen(f, g, op, r, t1, dest))
    } else if op == BinaryOp::MulH || op == BinaryOp::MulHU || op == BinaryOp::MulHSU {
        Some(mulh_gen(f, g, op, r, t1, dest))
    } else {
        None
    }
}

/// The one instruction of the general form, with the right operand `rv`
/// (`#imm` when `small`).
pub open spec fn basic_gen(
    f: Arm64Emitter,
    g: Gen,
    op: BinaryOp,
    r: Expr,
    dest: Seq<char>,
    small: bool,
    rv: Seq<char>,
) -> (Gen, Seq<char>)
    decreases 32 * esize(r) + 25,
{
    let t1 = tmp1(f);
    let t2 = tmp2(f);
    if op == BinaryOp::Add || op == BinaryOp::Sub {
        (put(g, op3(alu_name(op), dest, t1, rv)), dest)
    } else if is_logical(op) {
        if small && logical_imm(r->Imm_0, f.is_rv32()) {
            (put(g, op3(alu_name(op), dest, t1, "#"@ + decimal(r->Imm_0 as nat))), dest)
        } else if small {
            let a = expr_gen(f, g, r, t2);
            (put(a.0, op3(alu_name(op), dest, t1, a.1)), dest)
        } else {
            (put(g, op3(alu_name(op), dest, t1, rv)), dest)
        }
    } else if op == BinaryOp::Mul {
        if small {
            let a = expr_gen(f, g, r, t2);
            (put(a.0, op3("mul"@, dest, t1, a.1)), dest)
        } else {
            (put(g, op3("mul"@, dest, t1, rv)), dest)
        }
    } else {
        let cond = match op {
            BinaryOp::Eq => Some("eq"@),
            BinaryOp::Ne => Some("ne"@),
            BinaryOp::Lt => Some("lt"@),
            BinaryOp::Ge => Some("ge"@),
            BinaryOp::Ltu => Some("lo"@),
            BinaryOp::Geu => Some("hs"@),
            _ => None,
        };
        match cond {
            Some(cc) => (put(put(g, op2("cmp"@, t1, rv)), op2("cset"@, dest, cc)), dest),
            None => (put(g, comment_line("unsupported binary op: "@ + binary_name(op))), dest),
        }
    }
}

/// The shift mnemonic of a shift operation.
pub open spec fn shift_name(op: BinaryOp) -> Seq<char> {
    if op == BinaryOp::Sll || op == BinaryOp::SllW {
        "lsl"@
    } else if op == BinaryOp::Srl || op == BinaryOp::SrlW {
        "lsr"@
    } else {
        "asr"@
    }
}

/// A shift of `src` into `dest`; a register amount is lowered with `src`
/// saved to a stack slot.
pub open spec fn shift_gen(f: Arm64Emitter, g: Gen, op: BinaryOp, r: Expr, src: Seq<char>, dest: Seq<char>) -> (
    Gen,
    Seq<char>,
)
    decreases 32 * esize(r) + 24,
{
    let sop = shift_name(op);
    match r {
        Expr::Imm(v) => {
            let mask: u64 = if f.is_rv32() {
                0x1f
            } else {
                0x3f
            };
            (put(g, op3(sop, dest, src, "#"@ + decimal((v & mask) as nat))), dest)
        },
        _ => {
            let a = alloc_gen(g);
            let g2 = match a.1 {
                Some(o) => put(a.0, line(mem_op("str"@, width_reg(f, src), "sp"@, o as int))),
                None => a.0,
            };
            let b = expr_gen(f, g2, r, tmp2(f));
            let g4 = match a.1 {
                Some(o) => release_gen(
                    put(b.0, line(mem_op("ldr"@, width_reg(f, src), "sp"@, o as int))),
                ),
                None => b.0,
            };
            (put(g4, op3(sop, dest, src, b.1)), dest)
        },
    }
}

/// A word shift of `src`, sign-extended into `dest`.
pub open spec fn shift_word_gen(
    f: Arm64Emitter,
    g: Gen,
    op: BinaryOp,
    r: Expr,
    src: Seq<char>,
    dest: Seq<char>,
) -> (Gen, Seq<char>)
    decreases 32 * esize(r) + 23,
{
    let sop = shift_name(op);
    let s32 = reg32(src);
    let g4 = match r {
        Expr::Imm(v) => put(g, op3(sop, s32, s32, "#"@ + decimal((v & 0x1f) as nat))),
        _ => {
            let a = alloc_gen(g);
            let g2 = match a.1 {
                Some(o) => put(a.0, line(mem_op("str"@, s32, "sp"@, o as int))),
                None => a.0,
            };
            let b = expr_gen(f, g2, r, tmp2(f));
            let g3 = match a.1 {
                Some(o) => release_gen(put(b.0, line(mem_op("ldr"@, s32, "sp"@, o as int)))),
                None => b.0,
            };
            put(g3, op3(sop, s32, s32, reg32(b.1)))
        },
    };
    (put(g4, op2("sxtw"@, reg64(dest), s32)), dest)
}

/// A word addition, subtraction or multiplication, sign-extended.
pub open spec fn word_arith_gen(f: Arm64Emitter, g: Gen, op: BinaryOp, r: Expr, dest: Seq<char>) -> (
    Gen,
    Seq<char>,
)
    decreases 32 * esize(r) + 22,
{
    let t1 = tmp1(f);
    let s = spill_left_gen(f, g, r, t1);
    let b = expr_gen(f, s.0, r, tmp2(f));
    let g3 = restore_gen(f, b.0, s.1, t1);
    let mnem = if op == BinaryOp::AddW {
        "add"@
    } else if op == BinaryOp::SubW {
        "sub"@
    } else {
        "mul"@
    };
    (put(put(g3, op3(mnem, reg32(t1), reg32(t1), reg32(b.1))), op2("sxtw"@, reg64(dest), reg32(t1))), dest)
}

/// The overflow check of signed division: the most negative value divided
/// by -1 takes the path with the given result.
pub open spec fn div_overflow_gen(
    f: Arm64Emitter,
    g: Gen,
    prefix: Seq<char>,
    left: Seq<char>,
    right: Seq<char>,
    dest: Seq<char>,
    ov_value: Seq<char>,
    done: Seq<char>,
) -> Gen {
    let nl = label_gen(g, prefix);
    let tmp = tmp3(f);
    let minv: u64 = if f.is_rv32() {
        0x8000_0000
    } else {
        0x8000_0000_0000_0000
    };
    let a = put(put(nl.0, load_imm_text(tmp, minv)), op2("cmp"@, left, tmp));
    let b = put(put(put(a, line("b.ne "@ + nl.1)), op2("cmn"@, right, "#1"@)), line("b.ne "@ + nl.1));
    put(put(put(b, op2("mov"@, dest, ov_value)), line("b "@ + done)), label_line(nl.1))
}

/// `msub dest, q, right, left`.
pub open spec fn msub_line(dest: Seq<char>, q: Seq<char>, right: Seq<char>, left: Seq<char>) -> Seq<char> {
    line("msub "@ + dest + ", "@ + q + ", "@ + right + ", "@ + left)
}

/// Division or remainder with the RISC-V results for a zero divisor and
/// for overflow.
pub open spec fn div_gen(f: Arm64Emitter, g: Gen, op: BinaryOp, r: Expr, left: Seq<char>, dest: Seq<char>) -> (
    Gen,
    Seq<char>,
)
    decreases 32 * esize(r) + 21,
{
    let s = spill_left_gen(f, g, r, left);
    let b = expr_gen(f, s.0, r, tmp2(f));
    let rr = b.1;
    let g3 = restore_gen(f, b.0, s.1, left);
    let sk = label_gen(g3, "div_ok"@);
    let dn = label_gen(sk.0, "div_done"@);
    let g4 = put(dn.0, op2("cbnz"@, rr, sk.1));
    let g5 = put(
        g4,
        if op == BinaryOp::Div || op == BinaryOp::DivU {
            op2("mov"@, dest, "#-1"@)
        } else {
            op2("mov"@, dest, left)
        },
    );
    let g6 = put(put(g5, line("b "@ + dn.1)), label_line(sk.1));
    let tmp = tmp3(f);
    let g7 = if op == BinaryOp::Div {
        put(div_overflow_gen(f, g6, "div_no_ov"@, left, rr, dest, tmp, dn.1), op3("sdiv"@, dest, left, rr))
    } else if op == BinaryOp::DivU {
        put(g6, op3("udiv"@, dest, left, rr))
    } else if op == BinaryOp::Rem {
        put(
            put(div_overflow_gen(f, g6, "rem_no_ov"@, left, rr, dest, "#0"@, dn.1), op3("sdiv"@, tmp, left, rr)),
            msub_line(dest, tmp, rr, left),
        )
    } else {
        put(put(g6, op3("udiv"@, tmp, left, rr)), msub_line(dest, tmp, rr, left))
    };
    (put(g7, label_line(dn.1)), dest)
}

/// Word division or remainder, sign-extended, with the RISC-V results for a
/// zero divisor.
pub open spec fn div_word_gen(
    f: Arm64Emitter,
    g: Gen,
    op: BinaryOp,
    r: Expr,
    left: Seq<char>,
    dest: Seq<char>,
) -> (Gen, Seq<char>)
    decreases 32 * esize(r) + 20,
{
    let s = spill_left_gen(f, g, r, left);
    let b = expr_gen(f, s.0, r, tmp2(f));
    let g3 = restore_gen(f, b.0, s.1, left);
    let l32 = reg32(left);
    let r32 = reg32(b.1);
    let sk = label_gen(g3, "divw_ok"@);
    let dn = label_gen(sk.0, "divw_done"@);
    let g4 = put(dn.0, op2("cbnz"@, r32, sk.1));
    let g5 = put(
        g4,
        if op == BinaryOp::DivW || op == BinaryOp::DivUW {
            op2("mov"@, dest, "#-1"@)
        } else {
            op2("sxtw"@, reg64(dest), l32)
        },
    );
    let g6 = put(put(g5, line("b "@ + dn.1)), label_line(sk.1));
    let q = if op == BinaryOp::DivW || op == BinaryOp::RemW {
        op3("sdiv"@, "w2"@, l32, r32)
    } else {
        op3("udiv"@, "w2"@, l32, r32)
    };
    let g7 = if op == BinaryOp::RemW || op == BinaryOp::RemUW {
        put(put(put(g6, q), msub_line("w2"@, "w2"@, r32, l32)), op2("sxtw"@, reg64(dest), "w2"@))
    } else {
        put(put(g6, q), op2("sxtw"@, reg64(dest), "w2"@))
    };
    (put(g7, label_line(dn.1)), dest)
}

/// The high half of a product.
pub open spec fn mulh_gen(f: Arm64Emitter, g: Gen, op: BinaryOp, r: Expr, left: Seq<char>, dest: Seq<char>) -> (
    Gen,
    Seq<char>,
)
    decreases 32 * esize(r) + 19,
{
    let s = spill_left_gen(f, g, r, left);
    let b = expr_gen(f, s.0, r, tmp2(f));
    let rr = b.1;
    let g3 = restore_gen(f, b.0, s.1, left);
    if f.is_rv32() {
        let l32 = reg32(left);
        let r32 = reg32(rr);
        let d64 = reg64(dest);
        if op == BinaryOp::MulH {
            (put(put(g3, op3("smull"@, d64, l32, r32)), op3("asr"@, d64, d64, "#32"@)), dest)
        } else if op == BinaryOp::MulHU {
            (put(put(g3, op3("umull"@, d64, l32, r32)), op3("lsr"@, d64, d64, "#32"@)), dest)
        } else {
            let t32 = reg32(tmp3(f));
            let a = put(put(put(g3, op2("mov"@, t32, l32)), op3("smull"@, d64, l32, r32)), op3(
                "asr"@,
                d64,
                d64,
                "#32"@,
            ));
            (
                put(
                    put(put(a, op2("cmp"@, r32, "#0"@)), op3("csel"@, t32, t32, "wzr, lt"@)),
                    op3("add"@, d64, d64, t32 + ", sxtw"@),
                ),
                dest,
            )
        }
    } else {
        if op == BinaryOp::MulH {
            (put(g3, op3("smulh"@, dest, left, rr)), dest)
        } else if op == BinaryOp::MulHU {
            (put(g3, op3("umulh"@, dest, left, rr)), dest)
        } else {
            (
                put(
                    put(put(put(g3, op3("umulh"@, dest, left, rr)), op2("cmp"@, left, "#0"@)), op3(
                        "csel"@,
                        "x2"@,
                        rr,
                        "xzr, lt"@,
                    )),
                    op3("sub"@, dest, dest, "x2"@),
                ),
                dest,
            )
        }
    }
}

/// Emitters that agree on their fixed part look the same to lowering.
pub proof fn lemma_fx(a: Arm64Emitter, b: Arm64Emitter)
    requires
        a.fixed(b),
    ensures
        fx(a) == fx(b),
{
}

/// A binary expression.
pub open spec fn bin(op: BinaryOp, l: Expr, r: Expr) -> Expr {
    Expr::Binary { op, left: Box::new(l), right: Box::new(r) }
}

/// The size and the width condition of a binary expression.
pub proof fn lemma_bin(op: BinaryOp, l: Expr, r: Expr)
    ensures
        esize(bin(op, l, r)) == 1 + esize(l) + esize(r),
        fits32(bin(op, l, r)) == (fits32(l) && fits32(r)),
        esize(l) >= 1,
        esize(r) >= 1,
{
}

/// What lowering a right operand on its own needs: the invariant, room for
/// its labels and three more, and immediates of the register width.
pub open spec fn right_ok(e: Arm64Emitter, r: Expr) -> bool {
    &&& e.wf()
    &&& e.label_counter + 4 * esize(r) + 3 <= usize::MAX
    &&& e.is_rv32() ==> fits32(r)
}

impl Arm64Emitter {
    /// Whether lowering an expression takes the first temporary.
    pub fn expr_needs_temp1(x: &Expr) -> (r: bool)
        ensures
            r == needs_temp1(*x),
    {
        match x {
            Expr::Read(r) => match r {
                ReadExpr::Mem { .. } => true,
                ReadExpr::MemAddr { .. } => true,
                _ => false,
            },
            Expr::Unary { .. } => true,
            Expr::Binary { .. } => true,
            Expr::Ternary { .. } => true,
            Expr::ExternCall { .. } => true,
            _ => false,
        }
    }

    /// Whether an expression is the constant zero.
    pub fn is_zero_expr(x: &Expr) -> (r: bool)
        ensures
            r == is_zero(*x),
    {
        match x {
            Expr::Imm(v) => *v == 0,
            Expr::Read(ReadExpr::Reg(reg)) => *reg == 0,
            _ => false,
        }
    }

    /// Lower an expression, leaving its value in the returned register
    /// (`dest`, or a register that already holds it).
    pub fn emit_expr(&mut self, x: &Expr, dest: &str) -> (r: String)
        requires
            lowerable(*old(self), *x, dest@),
        ensures
            old(self).fixed(*final(self)),
            (gen(*final(self)), r@) == expr_gen(fx(*old(self)), gen(*old(self)), *x, dest@),
            final(self).label_counter <= old(self).label_counter + 4 * esize(*x),
        decreases 32 * esize(*x) + 15,
    {
        let ghost f = fx(*self);
        if self.config.perf_mode {
            let zero = match x {
                Expr::Read(ReadExpr::Csr(_)) => true,
                Expr::Read(ReadExpr::Cycle) => true,
                Expr::Read(ReadExpr::Instret) => true,
                _ => false,
            };
            if zero {
                let mut l = string_of("mov ");
                push_str(&mut l, dest);
                push_str(&mut l, ", #0");
                self.emit(l.as_str());
                return string_of(dest);
            }
        }
        assert(!perf_zero(f, *x));
        match x {
            Expr::Imm(v) => self.emit_expr_imm(*v, dest),
            Expr::Read(r) => self.emit_expr_read(r, dest),
            Expr::PcConst(v) => self.emit_expr_pc_const(*v, dest),
            Expr::Var(name) => self.emit_expr_var(name.as_str(), dest),
            Expr::Binary { op, left, right } => self.emit_binary_op(*op, left, right, dest),
            Expr::Unary { op, expr } => self.emit_unary_op(*op, expr, dest),
            Expr::ExternCall { name, args } => self.emit_expr_extern_call(name.as_str(), args, dest),
            Expr::Ternary { op, first, second, third } => self.emit_expr_select(
                first,
                second,
                third,
                dest,
            ),
        }
    }

    /// Lower an expression as a 64-bit address into `x0`.
    pub fn emit_expr_as_addr(&mut self, x: &Expr) -> (r: String)
        requires
            lowerable(*old(self), *x, "x0"@),
            old(self).is_rv32() ==> fits32(*x),
        ensures
            old(self).fixed(*final(self)),
            (gen(*final(self)), r@) == as_addr_gen(fx(*old(self)), gen(*old(self)), *x),
            final(self).label_counter <= old(self).label_counter + 4 * esize(*x),
        decreases 32 * esize(*x) + 16,
    {
        proof {
            reveal_strlit("x0");
            reveal_strlit("w0");
        }
        match x {
            Expr::Read(ReadExpr::Reg(reg)) => {
                return self.load_rv_as_addr(*reg, "x0");
            },
            Expr::Imm(v) => {
                self.load_imm("x0", *v);
                return string_of("x0");
            },
            _ => {},
        }
        let t1 = self.temp1();
        let result = self.emit_expr(x, t1);
        let result64 = Self::reg_64(result.as_str());
        if !str_eq(result64.as_str(), "x0") {
            let mut l = string_of("mov x0, ");
            push_str(&mut l, result64.as_str());
            self.emit(l.as_str());
        }
        string_of("x0")
    }

    /// Lower a read into `dest`.
    fn emit_expr_read(&mut self, r: &ReadExpr, dest: &str) -> (res: String)
        requires
            lowerable(*old(self), Expr::Read(*r), dest@),
            !perf_zero(fx(*old(self)), Expr::Read(*r)),
        ensures
            old(self).fixed(*final(self)),
            (gen(*final(self)), res@) == read_gen(fx(*old(self)), gen(*old(self)), *r, dest@),
            final(self).label_counter <= old(self).label_counter + 4 * rsize(*r),
        decreases 32 * rsize(*r) + 14,
    {
        proof {
            crate::layout::law_layout_fields_ordered(self.layout);
        }
        match r {
            ReadExpr::Reg(reg) => {
                let ghost f = fx(*self);
                let ghost g = gen(*self);
                let res = self.emit_load_rv(*reg, dest);
                assert(read_gen(f, g, *r, dest@) == load_rv_gen(f, g, *reg, dest@));
                res
            },
            ReadExpr::Mem { base, offset, width, signed } => self.emit_expr_read_mem(
                base,
                *offset,
                *width,
                *signed,
                dest,
            ),
            ReadExpr::MemAddr { addr, width, signed } => self.emit_expr_read_mem_addr(
                addr,
                *width,
                *signed,
                dest,
            ),
            ReadExpr::Csr(csr) => self.emit_expr_read_csr(*csr, dest),
            ReadExpr::Cycle => self.emit_expr_read_instret(dest),
            ReadExpr::Instret => self.emit_expr_read_instret(dest),
            ReadExpr::Pc => self.emit_expr_read_pc(dest),
            ReadExpr::Exited => self.emit_expr_read_exited(dest),
            ReadExpr::ExitCode => self.emit_expr_read_exit_code(dest),
            ReadExpr::ResAddr => self.emit_expr_read_res_addr(dest),
            ReadExpr::ResValid => self.emit_expr_read_res_valid(dest),
            ReadExpr::Temp(idx) => self.emit_expr_read_temp(*idx, dest),
            ReadExpr::TraceIdx => self.emit_expr_unsupported("Read(TraceIdx)", dest),
            ReadExpr::PcIdx => self.emit_expr_unsupported("Read(PcIdx)", dest),
        }
    }

    /// A guest register read into `temp`, or the register that holds it.
    fn emit_load_rv(&mut self, reg: u8, temp: &str) -> (res: String)
        requires
            old(self).wf(),
        ensures
            old(self).fixed(*final(self)),
            (gen(*final(self)), res@) == load_rv_gen(fx(*old(self)), gen(*old(self)), reg, temp@),
    {
        let ghost f = fx(*self);
        let ghost g = gen(*self);
        let res = self.load_rv_to_temp(reg, temp);
        assert(reg == 0 ==> (gen(*self), res@) == load_rv_gen(f, g, reg, temp@));
        assert(reg != 0 && f.hot_name(reg as int) is Some ==> (gen(*self), res@) == load_rv_gen(f, g, reg, temp@));
        res
    }

    /// A comment naming an expression that has no lowering, and zero.
    fn emit_expr_unsupported(&mut self, what: &str, dest: &str) -> (res: String)
        ensures
            old(self).keeps(*final(self)),
            final(self).out@ == old(self).out@ + comment_line("unsupported expr: "@ + what@)
                + zero_line(dest@),
            res@ == dest@,
    {
        let mut c = string_of("unsupported expr: ");
        push_str(&mut c, what);
        self.emit_comment(c.as_str());
        let mut l = string_of("mov ");
        push_str(&mut l, dest);
        push_str(&mut l, ", #0");
        self.emit(l.as_str());
        string_of(dest)
    }

    /// Lower a memory read at `base + offset` into `dest`.
    fn emit_expr_read_mem(&mut self, base: &Expr, offset: i16, width: u8, signed: bool, dest: &str) -> (res: String)
        requires
            old(self).wf(),
            old(self).label_counter + 4 * (1 + esize(*base)) <= usize::MAX,
            old(self).is_rv32() ==> fits32(*base),
        ensures
            old(self).fixed(*final(self)),
            (gen(*final(self)), res@) == mem_read_gen(
                fx(*old(self)),
                gen(*old(self)),
                *base,
                offset as int,
                width,
                signed,
                dest@,
            ),
            final(self).label_counter <= old(self).label_counter + 4 * (1 + esize(*base)),
        decreases 32 * (1 + esize(*base)) + 13,
    {
        proof {
            reveal_strlit("x0");
        }
        let base_reg = self.emit_expr_as_addr(base);
        if offset != 0 {
            self.emit_add_offset("x0", base_reg.as_str(), offset as i64);
        } else if !str_eq(base_reg.as_str(), "x0") {
            let mut l = string_of("mov x0, ");
            push_str(&mut l, base_reg.as_str());
            self.emit(l.as_str());
        }
        self.load_from_memory_at_x0(dest, width, signed);
        string_of(dest)
    }

    /// Lower a memory read at `addr` into `dest`.
    fn emit_expr_read_mem_addr(&mut self, addr: &Expr, width: u8, signed: bool, dest: &str) -> (res: String)
        requires
            old(self).wf(),
            old(self).label_counter + 4 * (1 + esize(*addr)) <= usize::MAX,
            old(self).is_rv32() ==> fits32(*addr),
        ensures
            old(self).fixed(*final(self)),
            (gen(*final(self)), res@) == mem_read_gen(
                fx(*old(self)),
                gen(*old(self)),
                *addr,
                0,
                width,
                signed,
                dest@,
            ),
            final(self).label_counter <= old(self).label_counter + 4 * (1 + esize(*addr)),
        decreases 32 * (1 + esize(*addr)) + 13,
    {
        proof {
            reveal_strlit("x0");
        }
        let base_reg = self.emit_expr_as_addr(addr);
        if !str_eq(base_reg.as_str(), "x0") {
            let mut l = string_of("mov x0, ");
            push_str(&mut l, base_reg.as_str());
            self.emit(l.as_str());
        }
        self.load_from_memory_at_x0(dest, width, signed);
        string_of(dest)
    }

    /// The address mode applied to `x0`, the load from guest memory at
    /// `x0`, and its record for the diff tracer.
    fn load_from_memory_at_x0(&mut self, dest: &str, width: u8, signed: bool)
        requires
            old(self).wf(),
            old(self).label_counter < usize::MAX,
        ensures
            old(self).fixed(*final(self)),
            gen(*final(self)) == put(
                put(
                    apply_gen(fx(*old(self)), gen(*old(self)), "x0"@),
                    load_text(MEMORY_PTR@ + ", x0"@, dest@, width, signed, old(self).is_rv32()),
                ),
                trace_mem_text(fx(*old(self)), "x0"@, dest@, width, false),
            ),
            final(self).label_counter <= old(self).label_counter + 1,
    {
        self.apply_address_mode("x0");
        let mut mem = string_of(MEMORY_PTR);
        push_str(&mut mem, ", x0");
        self.emit_load_from_mem(mem.as_str(), dest, width, signed);
        self.emit_trace_mem_access("x0", dest, width, false);
    }

    /// Store a register of the guest width to a stack slot, or load it back.
    fn emit_slot_op(&mut self, op: &str, reg: &str, off: usize)
        ensures
            final(self).out@ == old(self).out@ + line(
                mem_op(op@, width_reg(fx(*old(self)), reg@), "sp"@, off as int),
            ),
            old(self).keeps(*final(self)),
    {
        if self.rv32() {
            let r32 = Self::reg_32(reg);
            self.emit_mem_op(op, r32.as_str(), "sp", off);
        } else {
            self.emit_mem_op(op, reg, "sp", off);
        }
    }

    /// Lower a selection into `dest`.
    fn emit_expr_select(&mut self, c: &Expr, t: &Expr, e: &Expr, dest: &str) -> (res: String)
        requires
            old(self).wf(),
            old(self).label_counter + 4 * (1 + esize(*c) + esize(*t) + esize(*e)) <= usize::MAX,
            old(self).is_rv32() ==> fits32(*c) && fits32(*t) && fits32(*e),
        ensures
            old(self).fixed(*final(self)),
            (gen(*final(self)), res@) == select_gen(
                fx(*old(self)),
                gen(*old(self)),
                *c,
                *t,
                *e,
                dest@,
            ),
            final(self).label_counter <= old(self).label_counter + 4 * (1 + esize(*c) + esize(*t)
                + esize(*e)),
        decreases 32 * (1 + esize(*c) + esize(*t) + esize(*e)) + 13,
    {
        proof {
            reveal_strlit("x0");
        }
        let t1 = self.temp1();
        let then_reg = self.emit_expr(t, t1);
        self.emit_slot_op("str", then_reg.as_str(), 0);
        let else_reg = self.emit_expr(e, t1);
        self.emit_slot_op("str", else_reg.as_str(), 8);
        let cond_reg = self.emit_expr(c, t1);
        let a = self.temp2();
        let b = self.temp3();
        self.emit_mem_op("ldr", a, "sp", 0);
        self.emit_mem_op("ldr", b, "sp", 8);
        self.emit_op2("cmp", cond_reg.as_str(), "#0");
        let mut l = string_of("csel ");
        push_str(&mut l, dest);
        push_str(&mut l, ", ");
        push_str(&mut l, a);
        push_str(&mut l, ", ");
        push_str(&mut l, b);
        push_str(&mut l, ", ne");
        self.emit(l.as_str());
        string_of(dest)
    }
}

impl Arm64Emitter {
    /// Lower a unary operation into `dest`, in place.
    fn emit_unary_op(&mut self, op: UnaryOp, inner: &Expr, dest: &str) -> (res: String)
        requires
            lowerable(*old(self), *inner, dest@),
            old(self).label_counter + 4 * (1 + esize(*inner)) <= usize::MAX,
        ensures
            old(self).fixed(*final(self)),
            (gen(*final(self)), res@) == unary_gen(fx(*old(self)), gen(*old(self)), op, *inner, dest@),
            final(self).label_counter <= old(self).label_counter + 4 * (1 + esize(*inner)),
        decreases 32 * (1 + esize(*inner)) + 14,
    {
        let inner0 = self.emit_expr(inner, dest);
        let rv32 = self.rv32();
        let dest_w = str_starts(dest, 'w');
        let inner_reg = if rv32 && dest_w && str_starts(inner0.as_str(), 'x') {
            Self::reg_32(inner0.as_str())
        } else {
            inner0
        };
        if !str_eq(inner_reg.as_str(), dest) {
            self.emit_op2("mov", dest, inner_reg.as_str());
        }
        let d32 = Self::reg_32(dest);
        let d = d32.as_str();
        match op {
            UnaryOp::Neg => self.emit_op2("neg", dest, dest),
            UnaryOp::Not => self.emit_op2("mvn", dest, dest),
            UnaryOp::Sext8 => self.emit_op2("sxtb", dest, d),
            UnaryOp::Sext16 => self.emit_op2("sxth", dest, d),
            UnaryOp::Sext32 => {
                let d64 = Self::reg_64(dest);
                self.emit_op2("sxtw", d64.as_str(), d);
            },
            UnaryOp::Zext8 => self.emit_op2("uxtb", d, d),
            UnaryOp::Zext16 => self.emit_op2("uxth", d, d),
            UnaryOp::Zext32 => self.emit_op2("mov", d, d),
            UnaryOp::Clz => self.emit_op2("clz", dest, dest),
            UnaryOp::Ctz => {
                self.emit_op2("rbit", dest, dest);
                self.emit_op2("clz", dest, dest);
            },
            UnaryOp::Cpop => {
                if rv32 {
                    self.emit_cpop32(d);
                } else {
                    self.emit_cpop64(dest);
                }
            },
            UnaryOp::Clz32 => self.emit_op2("clz", d, d),
            UnaryOp::Ctz32 => {
                self.emit_op2("rbit", d, d);
                self.emit_op2("clz", d, d);
            },
            UnaryOp::Cpop32 => self.emit_cpop32(d),
            UnaryOp::Orc8 => {
                if rv32 {
                    self.emit_orc8_32(d);
                } else {
                    self.emit_orc8_64(dest);
                }
            },
            UnaryOp::Rev8 => self.emit_op2("rev", dest, dest),
            _ => {
                let mut c = string_of("unary op ");
                push_str(&mut c, Self::unary_op_name(op));
                push_str(&mut c, " not implemented");
                self.emit_comment(c.as_str());
                self.emit_op2("mov", dest, dest);
            },
        }
        string_of(dest)
    }

    /// The name of a unary operation in comments.
    fn unary_op_name(op: UnaryOp) -> (r: &'static str)
        ensures
            r@ == unary_name(op),
    {
        match op {
            UnaryOp::Not => "Not",
            UnaryOp::Neg => "Neg",
            UnaryOp::Sext8 => "Sext8",
            UnaryOp::Sext16 => "Sext16",
            UnaryOp::Sext32 => "Sext32",
            UnaryOp::Zext8 => "Zext8",
            UnaryOp::Zext16 => "Zext16",
            UnaryOp::Zext32 => "Zext32",
            UnaryOp::Clz => "Clz",
            UnaryOp::Ctz => "Ctz",
            UnaryOp::Cpop => "Cpop",
            UnaryOp::Clz32 => "Clz32",
            UnaryOp::Ctz32 => "Ctz32",
            UnaryOp::Cpop32 => "Cpop32",
            UnaryOp::Orc8 => "Orc8",
            UnaryOp::Rev8 => "Rev8",
            UnaryOp::Brev8 => "Brev8",
            UnaryOp::Zip => "Zip",
            UnaryOp::Unzip => "Unzip",
        }
    }

    /// Lower a helper call's value into `dest`.
    fn emit_expr_extern_call(&mut self, name: &str, args: &Vec<Expr>, dest: &str) -> (res: String)
        requires
            old(self).wf(),
            old(self).label_counter + 4 * (1 + sizes(args@, args@.len() as int)) <= usize::MAX,
            old(self).is_rv32() ==> all_fit32(args@, args@.len() as int),
        ensures
            old(self).fixed(*final(self)),
            (gen(*final(self)), res@) == extern_expr_gen(
                fx(*old(self)),
                gen(*old(self)),
                name@,
                args@,
                dest@,
            ),
            final(self).label_counter <= old(self).label_counter + 4 * (1 + sizes(
                args@,
                args@.len() as int,
            )),
        decreases 32 * (1 + sizes(args@, args@.len() as int)) + 14,
    {
        let ret = self.emit_extern_call(name, args);
        if !str_eq(ret.as_str(), dest) {
            self.emit_op2("mov", dest, ret.as_str());
        }
        string_of(dest)
    }

    /// Call a runtime helper: hot registers saved to the state, the first
    /// eight arguments loaded (last to first), the call, hot registers
    /// restored; the value is in the returned register.
    pub fn emit_extern_call(&mut self, name: &str, args: &Vec<Expr>) -> (res: String)
        requires
            old(self).wf(),
            old(self).label_counter + 4 * (1 + sizes(args@, args@.len() as int)) <= usize::MAX,
            old(self).is_rv32() ==> all_fit32(args@, args@.len() as int),
        ensures
            old(self).fixed(*final(self)),
            (gen(*final(self)), res@) == extern_call_gen(fx(*old(self)), gen(*old(self)), name@, args@),
            final(self).label_counter <= old(self).label_counter + 4 * sizes(
                args@,
                args@.len() as int,
            ),
        decreases 32 * (1 + sizes(args@, args@.len() as int)) + 13,
    {
        let ghost f = fx(*self);
        let ghost start = self.label_counter;
        let ghost len = args@.len() as int;
        self.save_hot_regs_to_state();
        let n: usize = if args.len() < 8 {
            args.len()
        } else {
            8
        };
        proof {
            if n > 0 {
                lemma_sizes(args@, len, n - 1);
            }
        }
        let ghost g1 = gen(*self);
        let mut k: usize = n;
        while k > 0
            invariant
                fx(*self) == f,
                self.wf(),
                old(self).fixed(*self),
                k <= n,
                n <= args@.len(),
                n <= 8,
                len == args@.len(),
                start + 4 * (1 + sizes(args@, len)) <= usize::MAX,
                sizes(args@, n as int) <= sizes(args@, len),
                self.label_counter + 4 * sizes(args@, k as int) <= start + 4 * sizes(
                    args@,
                    n as int,
                ),
                old(self).is_rv32() ==> all_fit32(args@, len),
                self.is_rv32() == old(self).is_rv32(),
                args_gen(f, gen(*self), args@, k as int) == args_gen(f, g1, args@, n as int),
            decreases k,
        {
            proof {
                lemma_sizes(args@, k as int, k - 1);
                lemma_sizes(args@, len, k - 1);
                if old(self).is_rv32() {
                    lemma_all_fit32(args@, len, k - 1);
                }
            }
            self.emit_extern_arg(&args[k - 1], k - 1);
            k -= 1;
        }
        let mut l = string_of("bl ");
        push_str(&mut l, name);
        self.emit(l.as_str());
        self.restore_hot_regs_from_state();
        if self.rv32() {
            string_of("w0")
        } else {
            string_of("x0")
        }
    }

    /// Load argument `idx` of a helper call into its register.
    fn emit_extern_arg(&mut self, arg: &Expr, idx: usize)
        requires
            old(self).wf(),
            idx < 8,
            old(self).label_counter + 4 * esize(*arg) <= usize::MAX,
            old(self).is_rv32() ==> fits32(*arg),
        ensures
            old(self).fixed(*final(self)),
            gen(*final(self)) == arg_gen(fx(*old(self)), gen(*old(self)), *arg, idx as int),
            final(self).label_counter <= old(self).label_counter + 4 * esize(*arg),
        decreases 32 * esize(*arg) + 16,
    {
        proof {
            reveal_strlit("x");
            reveal_strlit("w");
            reveal_strlit("x0");
            reveal_strlit("state");
        }
        let is_state = match arg {
            Expr::Var(name) => str_eq(name.as_str(), "state"),
            _ => false,
        };
        let wide = !self.rv32() || is_state;
        let mut reg = if wide {
            string_of("x")
        } else {
            string_of("w")
        };
        push_decimal(&mut reg, idx as u64);
        assert(reg@ == arg_reg(wide, idx as int));
        if is_state {
            self.emit_op2("mov", reg.as_str(), STATE_PTR);
            return;
        }
        match arg {
            Expr::Read(ReadExpr::Reg(r)) => {
                let src = self.load_rv_to_temp(*r, reg.as_str());
                if !str_eq(src.as_str(), reg.as_str()) {
                    self.emit_op2("mov", reg.as_str(), src.as_str());
                }
            },
            Expr::Imm(v) => {
                self.load_imm(reg.as_str(), *v);
            },
            _ => {
                let t1 = self.temp1();
                let tmp = self.emit_expr(arg, t1);
                if !str_eq(tmp.as_str(), reg.as_str()) {
                    self.emit_op2("mov", reg.as_str(), tmp.as_str());
                }
            },
        }
    }
}

/// Whether a string starts with a character.
pub fn str_starts(s: &str, c: char) -> (r: bool)
    ensures
        r == starts(s@, c),
{
    let chars = crate::text::str_chars(s);
    chars.len() > 0 && chars[0] == c
}

impl Arm64Emitter {
    /// Whether an operation has an ALU mnemonic.
    fn is_alu_op(op: BinaryOp) -> (r: bool)
        ensures
            r == is_alu(op),
    {
        op == BinaryOp::Add || op == BinaryOp::Sub || op == BinaryOp::And || op == BinaryOp::Or
            || op == BinaryOp::Xor || op == BinaryOp::Mul
    }

    /// The ALU mnemonic of an operation.
    fn alu_mnemonic(op: BinaryOp) -> (r: &'static str)
        ensures
            r@ == alu_name(op),
    {
        match op {
            BinaryOp::Add => "add",
            BinaryOp::Sub => "sub",
            BinaryOp::And => "and",
            BinaryOp::Or => "orr",
            BinaryOp::Xor => "eor",
            BinaryOp::Mul => "mul",
            _ => "",
        }
    }

    /// `#v` in decimal.
    fn imm_operand(v: u64) -> (r: String)
        ensures
            r@ == "#"@ + decimal(v as nat),
    {
        let mut s = string_of("#");
        push_decimal(&mut s, v);
        s
    }

    /// A register narrowed to its 32-bit name for a 32-bit guest when it is
    /// named as a 64-bit one.
    fn narrow_reg(&self, r: String) -> (n: String)
        ensures
            n@ == narrow_x(fx(*self), r@),
    {
        if self.rv32() && str_starts(r.as_str(), 'x') {
            Self::reg_32(r.as_str())
        } else {
            r
        }
    }

    /// Emit `add`/`sub` of `src` and an encodable signed immediate.
    fn emit_addsub_line(&mut self, op: BinaryOp, d: &str, src: &str, s: i64, parts: (u16, bool))
        ensures
            final(self).out@ == old(self).out@ + addsub_line(op, d@, src@, s, parts),
            old(self).keeps(*final(self)),
    {
        let mnem = if (op == BinaryOp::Add) == (s >= 0) {
            "add"
        } else {
            "sub"
        };
        let mut imm = string_of("#");
        push_decimal(&mut imm, parts.0 as u64);
        if parts.1 {
            push_str(&mut imm, ", lsl #12");
        } else {
            proof {
                assert(imm@ + Seq::<char>::empty() =~= imm@);
            }
        }
        self.emit_op3(mnem, d, src, imm.as_str());
    }

    /// Lower a binary operation into `dest`.
    pub(crate) fn emit_binary_op(&mut self, op: BinaryOp, l: &Expr, r: &Expr, dest: &str) -> (res: String)
        requires
            lowerable(*old(self), bin(op, *l, *r), dest@),
        ensures
            old(self).fixed(*final(self)),
            (gen(*final(self)), res@) == binary_gen(fx(*old(self)), gen(*old(self)), op, *l, *r, dest@),
            final(self).label_counter <= old(self).label_counter + 4 * (1 + esize(*l) + esize(*r)),
        decreases 32 * (1 + esize(*l) + esize(*r)) + 14,
    {
        proof {
            lemma_bin(op, *l, *r);
            reveal_strlit("x0");
            reveal_strlit("x1");
        }
        if let Some(res) = self.emit_binary_imm_early(op, l, r, dest) {
            return res;
        }
        if let Some(res) = self.emit_binary_inplace_hot(op, l, r, dest) {
            return res;
        }
        if let Some(res) = self.emit_binary_hot_regs(op, l, r, dest) {
            return res;
        }
        if let Some(res) = self.emit_addsub_imm(op, l, r, dest) {
            return res;
        }
        self.emit_binary_general(op, l, r, dest)
    }

    /// The forms with an immediate that need no arithmetic.
    fn emit_binary_imm_early(&mut self, op: BinaryOp, l: &Expr, r: &Expr, dest: &str) -> (res: Option<String>)
        requires
            lowerable(*old(self), bin(op, *l, *r), dest@),
        ensures
            old(self).fixed(*final(self)),
            res is Some == imm_early_gen(fx(*old(self)), gen(*old(self)), op, *l, *r, dest@) is Some,
            res matches Some(s) ==> (gen(*final(self)), s@) == imm_early_gen(
                fx(*old(self)),
                gen(*old(self)),
                op,
                *l,
                *r,
                dest@,
            )->0,
            res is None ==> gen(*final(self)) == gen(*old(self)),
            final(self).label_counter <= old(self).label_counter + 4 * (1 + esize(*l) + esize(*r)),
        decreases 32 * (1 + esize(*l) + esize(*r)) + 13,
    {
        proof {
            lemma_bin(op, *l, *r);
            reveal_strlit("x0");
            reveal_strlit("x1");
        }
        let v = match r {
            Expr::Imm(v) => *v,
            _ => {
                return None;
            },
        };
        let full: u64 = if self.rv32() {
            0xFFFF_FFFF
        } else {
            0xFFFF_FFFF_FFFF_FFFF
        };
        let pass = ((op == BinaryOp::Add || op == BinaryOp::Sub || op == BinaryOp::Or || op
            == BinaryOp::Xor) && v == 0) || (op == BinaryOp::And && v == full) || (op
            == BinaryOp::Mul && v == 1);
        if pass {
            let lr = self.emit_expr(l, dest);
            if !str_eq(lr.as_str(), dest) {
                self.emit_op2("mov", dest, lr.as_str());
            }
            return Some(string_of(dest));
        }
        if (op == BinaryOp::And || op == BinaryOp::Mul) && v == 0 {
            let mut z = string_of("mov ");
            push_str(&mut z, dest);
            push_str(&mut z, ", #0");
            self.emit(z.as_str());
            return Some(string_of(dest));
        }
        None
    }

    /// Fold an immediate into an in-place operation on `dr`, when it encodes.
    fn emit_binary_inplace_imm(&mut self, op: BinaryOp, r: &Expr, dr: &str) -> (done: bool)
        requires
            old(self).is_rv32() ==> fits32(*r),
        ensures
            done == inplace_imm_code(fx(*old(self)), op, *r, dr@) is Some,
            done ==> final(self).out@ == old(self).out@ + inplace_imm_code(
                fx(*old(self)),
                op,
                *r,
                dr@,
            )->0,
            !done ==> final(self).out@ == old(self).out@,
            old(self).keeps(*final(self)),
    {
        let v = match r {
            Expr::Imm(v) => *v,
            _ => {
                return false;
            },
        };
        if op == BinaryOp::Add || op == BinaryOp::Sub {
            let s = self.signed_imm(v);
            match Self::addsub_imm_parts(s) {
                Some(parts) => {
                    self.emit_addsub_line(op, dr, dr, s, parts);
                    true
                },
                None => false,
            }
        } else if (op == BinaryOp::And || op == BinaryOp::Or || op == BinaryOp::Xor)
            && Self::is_logical_imm(v, self.rv32()) {
            let imm = Self::imm_operand(v);
            self.emit_op3(Self::alu_mnemonic(op), dr, dr, imm.as_str());
            true
        } else {
            false
        }
    }

    /// An operation whose left operand is the hot register that is also the
    /// destination, done in place.
    fn emit_binary_inplace_hot(&mut self, op: BinaryOp, l: &Expr, r: &Expr, dest: &str) -> (res: Option<String>)
        requires
            lowerable(*old(self), bin(op, *l, *r), dest@),
        ensures
            old(self).fixed(*final(self)),
            res is Some == inplace_hot_gen(fx(*old(self)), gen(*old(self)), op, *l, *r, dest@) is Some,
            res matches Some(s) ==> (gen(*final(self)), s@) == inplace_hot_gen(
                fx(*old(self)),
                gen(*old(self)),
                op,
                *l,
                *r,
                dest@,
            )->0,
            res is None ==> gen(*final(self)) == gen(*old(self)),
            final(self).label_counter <= old(self).label_counter + 4 * (1 + esize(*l) + esize(*r)),
        decreases 32 * (1 + esize(*l) + esize(*r)) + 12,
    {
        proof {
            lemma_bin(op, *l, *r);
            reveal_strlit("x0");
            reveal_strlit("x1");
        }
        if !Self::is_alu_op(op) {
            return None;
        }
        let reg = match l {
            Expr::Read(ReadExpr::Reg(reg)) => *reg,
            _ => {
                return None;
            },
        };
        let mapped = match self.reg_map.get(reg) {
            Some(m) => m,
            None => {
                return None;
            },
        };
        let m64 = Self::reg_64(mapped);
        let d64 = Self::reg_64(dest);
        if !str_eq(m64.as_str(), d64.as_str()) {
            return None;
        }
        if self.emit_binary_inplace_imm(op, r, mapped) {
            return Some(string_of(dest));
        }
        let t2 = self.temp2();
        let rr = self.emit_binary_right_reg(r, t2);
        self.emit_op3(Self::alu_mnemonic(op), mapped, mapped, rr.as_str());
        Some(string_of(dest))
    }

    /// The right operand in a register of the guest width.
    fn emit_binary_right_reg(&mut self, r: &Expr, t2: &str) -> (res: String)
        requires
            lowerable(*old(self), *r, t2@),
        ensures
            old(self).fixed(*final(self)),
            (gen(*final(self)), res@) == right_reg_gen(fx(*old(self)), gen(*old(self)), *r, t2@),
            final(self).label_counter <= old(self).label_counter + 4 * esize(*r),
        decreases 32 * esize(*r) + 16,
    {
        let rr = self.emit_expr(r, t2);
        self.narrow_reg(rr)
    }

    /// An operation on a hot register and another hot register or an
    /// encodable immediate, in one instruction.
    fn emit_binary_hot_regs(&mut self, op: BinaryOp, l: &Expr, r: &Expr, dest: &str) -> (res: Option<String>)
        requires
            old(self).wf(),
            old(self).is_rv32() ==> fits32(*r),
        ensures
            res is Some == hot_regs_code(fx(*old(self)), op, *l, *r, dest@) is Some,
            res matches Some(s) ==> s@ == dest@ && final(self).out@ == old(self).out@ + hot_regs_code(
                fx(*old(self)),
                op,
                *l,
                *r,
                dest@,
            )->0,
            res is None ==> final(self).out@ == old(self).out@,
            old(self).keeps(*final(self)),
    {
        if !Self::is_alu_op(op) {
            return None;
        }
        let lreg = match l {
            Expr::Read(ReadExpr::Reg(reg)) => *reg,
            _ => {
                return None;
            },
        };
        let lm = match self.reg_map.get(lreg) {
            Some(m) => m,
            None => {
                return None;
            },
        };
        let rv32 = self.rv32();
        let ls = if rv32 {
            Self::reg_32(lm)
        } else {
            string_of(lm)
        };
        match r {
            Expr::Read(ReadExpr::Reg(rreg)) => match self.reg_map.get(*rreg) {
                Some(rm) => {
                    let rs = if rv32 {
                        Self::reg_32(rm)
                    } else {
                        string_of(rm)
                    };
                    self.emit_op3(Self::alu_mnemonic(op), dest, ls.as_str(), rs.as_str());
                    Some(string_of(dest))
                },
                None => None,
            },
            Expr::Imm(v) => {
                if op == BinaryOp::Add || op == BinaryOp::Sub {
                    let s = self.signed_imm(*v);
                    match Self::addsub_imm_parts(s) {
                        Some(parts) => {
                            self.emit_addsub_line(op, dest, ls.as_str(), s, parts);
                            Some(string_of(dest))
                        },
                        None => None,
                    }
                } else if (op == BinaryOp::And || op == BinaryOp::Or || op == BinaryOp::Xor)
                    && Self::is_logical_imm(*v, rv32) {
                    let imm = Self::imm_operand(*v);
                    self.emit_op3(Self::alu_mnemonic(op), dest, ls.as_str(), imm.as_str());
                    Some(string_of(dest))
                } else {
                    None
                }
            },
            _ => None,
        }
    }

    /// An addition or subtraction of an encodable immediate.
    fn emit_addsub_imm(&mut self, op: BinaryOp, l: &Expr, r: &Expr, dest: &str) -> (res: Option<String>)
        requires
            lowerable(*old(self), bin(op, *l, *r), dest@),
        ensures
            old(self).fixed(*final(self)),
            res is Some == addsub_imm_gen(fx(*old(self)), gen(*old(self)), op, *l, *r, dest@) is Some,
            res matches Some(s) ==> (gen(*final(self)), s@) == addsub_imm_gen(
                fx(*old(self)),
                gen(*old(self)),
                op,
                *l,
                *r,
                dest@,
            )->0,
            res is None ==> gen(*final(self)) == gen(*old(self)),
            final(self).label_counter <= old(self).label_counter + 4 * (1 + esize(*l) + esize(*r)),
        decreases 32 * (1 + esize(*l) + esize(*r)) + 11,
    {
        proof {
            lemma_bin(op, *l, *r);
            reveal_strlit("x0");
            reveal_strlit("x1");
        }
        if !(op == BinaryOp::Add || op == BinaryOp::Sub) {
            return None;
        }
        let v = match r {
            Expr::Imm(v) => *v,
            _ => {
                return None;
            },
        };
        let s = self.signed_imm(v);
        let parts = match Self::addsub_imm_parts(s) {
            Some(p) => p,
            None => {
                return None;
            },
        };
        proof {
            reveal_strlit("x0");
        }
        let t1 = self.temp1();
        let lr0 = self.emit_expr(l, t1);
        let lr = self.narrow_reg(lr0);
        self.emit_addsub_line(op, dest, lr.as_str(), s, parts);
        Some(string_of(dest))
    }

    /// The general form of a binary operation.
    fn emit_binary_general(&mut self, op: BinaryOp, l: &Expr, r: &Expr, dest: &str) -> (res: String)
        requires
            lowerable(*old(self), bin(op, *l, *r), dest@),
        ensures
            old(self).fixed(*final(self)),
            (gen(*final(self)), res@) == general_gen(fx(*old(self)), gen(*old(self)), op, *l, *r, dest@),
            final(self).label_counter <= old(self).label_counter + 4 * (1 + esize(*l) + esize(*r)),
        decreases 32 * (1 + esize(*l) + esize(*r)) + 10,
    {
        proof {
            lemma_bin(op, *l, *r);
            reveal_strlit("x0");
            reveal_strlit("x1");
        }
        proof {
            reveal_strlit("x0");
            reveal_strlit("x1");
        }
        let t1 = self.temp1();
        let t2 = self.temp2();
        let lr0 = self.emit_expr(l, t1);
        let lr = self.narrow_reg(lr0);
        if !str_eq(lr.as_str(), t1) {
            self.emit_op2("mov", t1, lr.as_str());
        }
        if let Some(res) = self.emit_binary_special(op, r, dest) {
            return res;
        }
        let spill = self.maybe_spill_left(r, t1);
        let small: Option<u64> = match r {
            Expr::Imm(v) => if *v <= 0xFFF {
                Some(*v)
            } else {
                None
            },
            _ => None,
        };
        let rv0 = match small {
            Some(v) => Self::imm_operand(v),
            None => self.emit_expr(r, t2),
        };
        let rv = self.narrow_reg(rv0);
        self.restore_spilled_left(spill, t1);
        self.emit_binary_basic(op, r, dest, small.is_some(), rv.as_str())
    }

    /// The left operand in the first temporary spilled to a stack slot when
    /// the right operand needs that temporary.
    pub(crate) fn maybe_spill_left(&mut self, r: &Expr, left: &str) -> (res: Option<usize>)
        ensures
            old(self).fixed(*final(self)),
            (gen(*final(self)), res) == spill_left_gen(fx(*old(self)), gen(*old(self)), *r, left@),
            final(self).label_counter == old(self).label_counter,
    {
        if !Self::expr_needs_temp1(r) {
            return None;
        }
        let t1 = self.temp1();
        let t1_32 = Self::reg_32(t1);
        if !(str_eq(left, t1) || str_eq(left, t1_32.as_str())) {
            return None;
        }
        let offset = self.alloc_spill_slot();
        if let Some(off) = offset {
            self.emit_slot_op("str", left, off);
        }
        offset
    }

    /// The binary operations with a lowering of their own.
    fn emit_binary_special(&mut self, op: BinaryOp, r: &Expr, dest: &str) -> (res: Option<String>)
        requires
            right_ok(*old(self), *r),
        ensures
            old(self).fixed(*final(self)),
            res is Some == special_gen(fx(*old(self)), gen(*old(self)), op, *r, dest@) is Some,
            res matches Some(s) ==> (gen(*final(self)), s@) == special_gen(
                fx(*old(self)),
                gen(*old(self)),
                op,
                *r,
                dest@,
            )->0,
            res is None ==> gen(*final(self)) == gen(*old(self)),
            final(self).label_counter <= old(self).label_counter + 4 * esize(*r) + 3,
        decreases 32 * esize(*r) + 26,
    {
        let t1 = self.temp1();
        if op == BinaryOp::Sll || op == BinaryOp::Srl || op == BinaryOp::Sra {
            Some(self.emit_shift_op(op, r, t1, dest))
        } else if op == BinaryOp::SllW || op == BinaryOp::SrlW || op == BinaryOp::SraW {
            Some(self.emit_shift_word_op(op, r, t1, dest))
        } else if op == BinaryOp::AddW || op == BinaryOp::SubW || op == BinaryOp::MulW {
            Some(self.emit_word_arith(op, r, dest))
        } else if op == BinaryOp::Div || op == BinaryOp::DivU || op == BinaryOp::Rem || op
            == BinaryOp::RemU {
            Some(self.emit_div_op(op, r, t1, dest))
        } else if op == BinaryOp::DivW || op == BinaryOp::DivUW || op == BinaryOp::RemW || op
            == BinaryOp::RemUW {
            Some(self.emit_div_word_op(op, r, t1, dest))
        } else if op == BinaryOp::MulH || op == BinaryOp::MulHU || op == BinaryOp::MulHSU {
            Some(self.emit_mulh_op(op, r, t1, dest))
        } else {
            None
        }
    }

    /// The one instruction of the general form.
    fn emit_binary_basic(&mut self, op: BinaryOp, r: &Expr, dest: &str, small: bool, rv: &str) -> (res: String)
        requires
            old(self).wf(),
            old(self).is_rv32() ==> fits32(*r),
            small ==> r is Imm,
            small ==> old(self).label_counter + 4 * esize(*r) <= usize::MAX,
        ensures
            old(self).fixed(*final(self)),
            (gen(*final(self)), res@) == basic_gen(fx(*old(self)), gen(*old(self)), op, *r, dest@, small, rv@),
            final(self).label_counter <= old(self).label_counter + if small {
                4 * esize(*r)
            } else {
                0
            },
        decreases 32 * esize(*r) + 25,
    {
        proof {
            reveal_strlit("x1");
        }
        let t1 = self.temp1();
        let t2 = self.temp2();
        if op == BinaryOp::Add || op == BinaryOp::Sub {
            self.emit_op3(Self::alu_mnemonic(op), dest, t1, rv);
        } else if op == BinaryOp::And || op == BinaryOp::Or || op == BinaryOp::Xor {
            let v = match r {
                Expr::Imm(v) => *v,
                _ => 0,
            };
            if small && Self::is_logical_imm(v, self.rv32()) {
                let imm = Self::imm_operand(v);
                self.emit_op3(Self::alu_mnemonic(op), dest, t1, imm.as_str());
            } else if small {
                let rr = self.emit_expr(r, t2);
                self.emit_op3(Self::alu_mnemonic(op), dest, t1, rr.as_str());
            } else {
                self.emit_op3(Self::alu_mnemonic(op), dest, t1, rv);
            }
        } else if op == BinaryOp::Mul {
            if small {
                let rr = self.emit_expr(r, t2);
                self.emit_op3("mul", dest, t1, rr.as_str());
            } else {
                self.emit_op3("mul", dest, t1, rv);
            }
        } else {
            let cond = match op {
                BinaryOp::Eq => Some("eq"),
                BinaryOp::Ne => Some("ne"),
                BinaryOp::Lt => Some("lt"),
                BinaryOp::Ge => Some("ge"),
                BinaryOp::Ltu => Some("lo"),
                BinaryOp::Geu => Some("hs"),
                _ => None,
            };
            match cond {
                Some(cc) => self.emit_compare(cc, dest, t1, rv),
                None => {
                    let mut c = string_of("unsupported binary op: ");
                    push_str(&mut c, Self::binary_op_name(op));
                    self.emit_comment(c.as_str());
                },
            }
        }
        string_of(dest)
    }

    /// The name of a binary operation in comments.
    fn binary_op_name(op: BinaryOp) -> (r: &'static str)
        ensures
            r@ == binary_name(op),
    {
        match op {
            BinaryOp::Add => "Add",
            BinaryOp::Sub => "Sub",
            BinaryOp::Mul => "Mul",
            BinaryOp::And => "And",
            BinaryOp::Or => "Or",
            BinaryOp::Xor => "Xor",
            BinaryOp::Sll => "Sll",
            BinaryOp::Srl => "Srl",
            BinaryOp::Sra => "Sra",
            BinaryOp::Eq => "Eq",
            BinaryOp::Ne => "Ne",
            BinaryOp::Lt => "Lt",
            BinaryOp::Ge => "Ge",
            BinaryOp::Ltu => "Ltu",
            BinaryOp::Geu => "Geu",
            BinaryOp::Div => "Div",
            BinaryOp::DivU => "DivU",
            BinaryOp::Rem => "Rem",
            BinaryOp::RemU => "RemU",
            BinaryOp::AddW => "AddW",
            BinaryOp::SubW => "SubW",
            BinaryOp::MulW => "MulW",
            BinaryOp::DivW => "DivW",
            BinaryOp::DivUW => "DivUW",
            BinaryOp::RemW => "RemW",
            BinaryOp::RemUW => "RemUW",
            BinaryOp::SllW => "SllW",
            BinaryOp::SrlW => "SrlW",
            BinaryOp::SraW => "SraW",
            BinaryOp::MulH => "MulH",
            BinaryOp::MulHSU => "MulHSU",
            BinaryOp::MulHU => "MulHU",
            BinaryOp::Pack => "Pack",
            BinaryOp::Pack8 => "Pack8",
            BinaryOp::Pack16 => "Pack16",
        }
    }

    /// The shift mnemonic of a shift operation.
    fn shift_mnemonic(op: BinaryOp) -> (r: &'static str)
        ensures
            r@ == shift_name(op),
    {
        if op == BinaryOp::Sll || op == BinaryOp::SllW {
            "lsl"
        } else if op == BinaryOp::Srl || op == BinaryOp::SrlW {
            "lsr"
        } else {
            "asr"
        }
    }

    /// A shift of `src` into `dest`.
    fn emit_shift_op(&mut self, op: BinaryOp, r: &Expr, src: &str, dest: &str) -> (res: String)
        requires
            right_ok(*old(self), *r),
        ensures
            old(self).fixed(*final(self)),
            (gen(*final(self)), res@) == shift_gen(fx(*old(self)), gen(*old(self)), op, *r, src@, dest@),
            final(self).label_counter <= old(self).label_counter + 4 * esize(*r),
        decreases 32 * esize(*r) + 24,
    {
        proof {
            reveal_strlit("x1");
        }
        let sop = Self::shift_mnemonic(op);
        match r {
            Expr::Imm(v) => {
                let mask: u64 = if self.rv32() {
                    0x1f
                } else {
                    0x3f
                };
                let imm = Self::imm_operand(*v & mask);
                self.emit_op3(sop, dest, src, imm.as_str());
            },
            _ => {
                let spill = self.alloc_spill_slot();
                if let Some(o) = spill {
                    self.emit_slot_op("str", src, o);
                }
                let t2 = self.temp2();
                let sr = self.emit_expr(r, t2);
                if let Some(o) = spill {
                    self.emit_slot_op("ldr", src, o);
                    self.release_spill_slot();
                }
                self.emit_op3(sop, dest, src, sr.as_str());
            },
        }
        string_of(dest)
    }

    /// A word shift of `src`, sign-extended into `dest`.
    fn emit_shift_word_op(&mut self, op: BinaryOp, r: &Expr, src: &str, dest: &str) -> (res: String)
        requires
            right_ok(*old(self), *r),
        ensures
            old(self).fixed(*final(self)),
            (gen(*final(self)), res@) == shift_word_gen(fx(*old(self)), gen(*old(self)), op, *r, src@, dest@),
            final(self).label_counter <= old(self).label_counter + 4 * esize(*r),
        decreases 32 * esize(*r) + 23,
    {
        proof {
            reveal_strlit("x1");
        }
        let sop = Self::shift_mnemonic(op);
        let s32 = Self::reg_32(src);
        match r {
            Expr::Imm(v) => {
                let imm = Self::imm_operand(*v & 0x1f);
                self.emit_op3(sop, s32.as_str(), s32.as_str(), imm.as_str());
            },
            _ => {
                let spill = self.alloc_spill_slot();
                if let Some(o) = spill {
                    self.emit_mem_op("str", s32.as_str(), "sp", o);
                }
                let t2 = self.temp2();
                let sr = self.emit_expr(r, t2);
                let sh32 = Self::reg_32(sr.as_str());
                if let Some(o) = spill {
                    self.emit_mem_op("ldr", s32.as_str(), "sp", o);
                    self.release_spill_slot();
                }
                self.emit_op3(sop, s32.as_str(), s32.as_str(), sh32.as_str());
            },
        }
        let d64 = Self::reg_64(dest);
        self.emit_op2("sxtw", d64.as_str(), s32.as_str());
        string_of(dest)
    }

    /// A word addition, subtraction or multiplication, sign-extended.
    fn emit_word_arith(&mut self, op: BinaryOp, r: &Expr, dest: &str) -> (res: String)
        requires
            right_ok(*old(self), *r),
        ensures
            old(self).fixed(*final(self)),
            (gen(*final(self)), res@) == word_arith_gen(fx(*old(self)), gen(*old(self)), op, *r, dest@),
            final(self).label_counter <= old(self).label_counter + 4 * esize(*r),
        decreases 32 * esize(*r) + 22,
    {
        proof {
            reveal_strlit("x1");
        }
        let t1 = self.temp1();
        let spill = self.maybe_spill_left(r, t1);
        let t2 = self.temp2();
        let rr = self.emit_expr(r, t2);
        let t1_32 = Self::reg_32(t1);
        let r32 = Self::reg_32(rr.as_str());
        self.restore_spilled_left(spill, t1);
        let mnem = if op == BinaryOp::AddW {
            "add"
        } else if op == BinaryOp::SubW {
            "sub"
        } else {
            "mul"
        };
        self.emit_op3(mnem, t1_32.as_str(), t1_32.as_str(), r32.as_str());
        let d64 = Self::reg_64(dest);
        self.emit_op2("sxtw", d64.as_str(), t1_32.as_str());
        string_of(dest)
    }

    /// The overflow check of signed division: the most negative value
    /// divided by -1 gives `ov_value`.
    fn emit_div_overflow(&mut self, prefix: &str, left: &str, right: &str, dest: &str, ov_value: &str, done: &str)
        requires
            old(self).label_counter < usize::MAX,
        ensures
            old(self).fixed(*final(self)),
            gen(*final(self)) == div_overflow_gen(
                fx(*old(self)),
                gen(*old(self)),
                prefix@,
                left@,
                right@,
                dest@,
                ov_value@,
                done@,
            ),
    {
        proof {
            reveal_strlit("w2");
            reveal_strlit("x2");
        }
        let nl = self.next_label(prefix);
        let tmp = self.temp3();
        let minv: u64 = if self.rv32() {
            0x8000_0000
        } else {
            0x8000_0000_0000_0000
        };
        self.load_imm(tmp, minv);
        self.emit_op2("cmp", left, tmp);
        let mut b = string_of("b.ne ");
        push_str(&mut b, nl.as_str());
        self.emit(b.as_str());
        self.emit_op2("cmn", right, "#1");
        self.emit(b.as_str());
        self.emit_op2("mov", dest, ov_value);
        let mut d = string_of("b ");
        push_str(&mut d, done);
        self.emit(d.as_str());
        self.emit_label(nl.as_str());
    }

    /// `msub dest, q, right, left`.
    fn emit_msub(&mut self, dest: &str, q: &str, right: &str, left: &str)
        ensures
            final(self).out@ == old(self).out@ + msub_line(dest@, q@, right@, left@),
            old(self).keeps(*final(self)),
    {
        let mut l = string_of("msub ");
        push_str(&mut l, dest);
        push_str(&mut l, ", ");
        push_str(&mut l, q);
        push_str(&mut l, ", ");
        push_str(&mut l, right);
        push_str(&mut l, ", ");
        push_str(&mut l, left);
        self.emit(l.as_str());
    }

    /// Division or remainder with the RISC-V results for a zero divisor and
    /// for overflow.
    #[verifier::rlimit(40)]
    fn emit_div_op(&mut self, op: BinaryOp, r: &Expr, left: &str, dest: &str) -> (res: String)
        requires
            right_ok(*old(self), *r),
        ensures
            old(self).fixed(*final(self)),
            (gen(*final(self)), res@) == div_gen(fx(*old(self)), gen(*old(self)), op, *r, left@, dest@),
            final(self).label_counter <= old(self).label_counter + 4 * esize(*r) + 3,
        decreases 32 * esize(*r) + 21,
    {
        proof {
            reveal_strlit("x1");
        }
        let spill = self.maybe_spill_left(r, left);
        let t2 = self.temp2();
        let rr = self.emit_expr(r, t2);
        self.restore_spilled_left(spill, left);
        let skip = self.next_label("div_ok");
        let done = self.next_label("div_done");
        self.emit_op2("cbnz", rr.as_str(), skip.as_str());
        if op == BinaryOp::Div || op == BinaryOp::DivU {
            self.emit_op2("mov", dest, "#-1");
        } else {
            self.emit_op2("mov", dest, left);
        }
        let mut b = string_of("b ");
        push_str(&mut b, done.as_str());
        self.emit(b.as_str());
        self.emit_label(skip.as_str());
        let tmp = self.temp3();
        if op == BinaryOp::Div {
            self.emit_div_overflow("div_no_ov", left, rr.as_str(), dest, tmp, done.as_str());
            self.emit_op3("sdiv", dest, left, rr.as_str());
        } else if op == BinaryOp::DivU {
            self.emit_op3("udiv", dest, left, rr.as_str());
        } else if op == BinaryOp::Rem {
            self.emit_div_overflow("rem_no_ov", left, rr.as_str(), dest, "#0", done.as_str());
            self.emit_op3("sdiv", tmp, left, rr.as_str());
            self.emit_msub(dest, tmp, rr.as_str(), left);
        } else {
            self.emit_op3("udiv", tmp, left, rr.as_str());
            self.emit_msub(dest, tmp, rr.as_str(), left);
        }
        self.emit_label(done.as_str());
        string_of(dest)
    }

    /// Word division or remainder, sign-extended.
    #[verifier::rlimit(40)]
    fn emit_div_word_op(&mut self, op: BinaryOp, r: &Expr, left: &str, dest: &str) -> (res: String)
        requires
            right_ok(*old(self), *r),
        ensures
            old(self).fixed(*final(self)),
            (gen(*final(self)), res@) == div_word_gen(fx(*old(self)), gen(*old(self)), op, *r, left@, dest@),
            final(self).label_counter <= old(self).label_counter + 4 * esize(*r) + 2,
        decreases 32 * esize(*r) + 20,
    {
        proof {
            reveal_strlit("x1");
        }
        let spill = self.maybe_spill_left(r, left);
        let t2 = self.temp2();
        let rr = self.emit_expr(r, t2);
        self.restore_spilled_left(spill, left);
        let l32 = Self::reg_32(left);
        let r32 = Self::reg_32(rr.as_str());
        let skip = self.next_label("divw_ok");
        let done = self.next_label("divw_done");
        self.emit_op2("cbnz", r32.as_str(), skip.as_str());
        let d64 = Self::reg_64(dest);
        if op == BinaryOp::DivW || op == BinaryOp::DivUW {
            self.emit_op2("mov", dest, "#-1");
        } else {
            self.emit_op2("sxtw", d64.as_str(), l32.as_str());
        }
        let mut b = string_of("b ");
        push_str(&mut b, done.as_str());
        self.emit(b.as_str());
        self.emit_label(skip.as_str());
        if op == BinaryOp::DivW || op == BinaryOp::RemW {
            self.emit_op3("sdiv", "w2", l32.as_str(), r32.as_str());
        } else {
            self.emit_op3("udiv", "w2", l32.as_str(), r32.as_str());
        }
        if op == BinaryOp::RemW || op == BinaryOp::RemUW {
            self.emit_msub("w2", "w2", r32.as_str(), l32.as_str());
        }
        self.emit_op2("sxtw", d64.as_str(), "w2");
        self.emit_label(done.as_str());
        string_of(dest)
    }

    /// The high half of a product.
    fn emit_mulh_op(&mut self, op: BinaryOp, r: &Expr, left: &str, dest: &str) -> (res: String)
        requires
            right_ok(*old(self), *r),
        ensures
            old(self).fixed(*final(self)),
            (gen(*final(self)), res@) == mulh_gen(fx(*old(self)), gen(*old(self)), op, *r, left@, dest@),
            final(self).label_counter <= old(self).label_counter + 4 * esize(*r),
        decreases 32 * esize(*r) + 19,
    {
        proof {
            reveal_strlit("x1");
        }
        let spill = self.maybe_spill_left(r, left);
        let t2 = self.temp2();
        let rr = self.emit_expr(r, t2);
        self.restore_spilled_left(spill, left);
        if self.rv32() {
            let l32 = Self::reg_32(left);
            let r32 = Self::reg_32(rr.as_str());
            let d64 = Self::reg_64(dest);
            if op == BinaryOp::MulH {
                self.emit_op3("smull", d64.as_str(), l32.as_str(), r32.as_str());
                self.emit_op3("asr", d64.as_str(), d64.as_str(), "#32");
            } else if op == BinaryOp::MulHU {
                self.emit_op3("umull", d64.as_str(), l32.as_str(), r32.as_str());
                self.emit_op3("lsr", d64.as_str(), d64.as_str(), "#32");
            } else {
                let tmp = self.temp3();
                let t32 = Self::reg_32(tmp);
                self.emit_op2("mov", t32.as_str(), l32.as_str());
                self.emit_op3("smull", d64.as_str(), l32.as_str(), r32.as_str());
                self.emit_op3("asr", d64.as_str(), d64.as_str(), "#32");
                self.emit_op2("cmp", r32.as_str(), "#0");
                self.emit_op3("csel", t32.as_str(), t32.as_str(), "wzr, lt");
                let mut sx = string_of(t32.as_str());
                push_str(&mut sx, ", sxtw");
                self.emit_op3("add", d64.as_str(), d64.as_str(), sx.as_str());
            }
        } else {
            if op == BinaryOp::MulH {
                self.emit_op3("smulh", dest, left, rr.as_str());
            } else if op == BinaryOp::MulHU {
                self.emit_op3("umulh", dest, left, rr.as_str());
            } else {
                self.emit_op3("umulh", dest, left, rr.as_str());
                self.emit_op2("cmp", left, "#0");
                self.emit_op3("csel", "x2", rr.as_str(), "xzr, lt");
                self.emit_op3("sub", dest, dest, "x2");
            }
        }
        string_of(dest)
    }
}

} // verus!
