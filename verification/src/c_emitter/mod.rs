//! C code emitter: renders lifted expressions as C expressions over the
//! guest state, with hot registers as function parameters, memory through
//! the header's accessors, and optional tracing hooks.

use vstd::prelude::*;

pub mod stmt;
pub mod terminator;
pub mod block;

use crate::c_config::TracerKind;
use crate::config::{EmitConfig, InstretMode, Xlen};
use crate::inputs::EmitInputs;
use crate::ir::{riscv_compare_holds, signed_in, BinaryOp, Expr, ReadExpr, TernaryOp, UnaryOp};
use crate::signature::{reg_read_text, state_ref, state_text, FnSignature, STATE_FIXED_REF};
use crate::text::{
    decimal, hex, hex_padded, push_decimal, push_hex, push_hex_padded, push_str, str_eq, string_of,
    to_decimal,
};

verus! {

broadcast use vstd::std_specs::hash::group_hash_axioms;

/// C code emitter.
pub struct CEmitter {
    /// Code generation configuration.
    pub config: EmitConfig,
    /// Program facts (code range, block addresses).
    pub inputs: EmitInputs,
    /// Function signature for block functions.
    pub sig: FnSignature,
    /// Output buffer.
    pub out: String,
    /// Register type name (`uint32_t` or `uint64_t`).
    pub reg_type: &'static str,
    /// Signed register type (`int32_t` or `int64_t`).
    pub signed_type: &'static str,
    /// Current instruction pc.
    pub current_pc: u64,
    /// Current instruction op (packed op id for tracing).
    pub current_op: u16,
    /// Current instruction raw bytes.
    pub current_raw: u32,
    /// Instruction index within the block.
    pub instr_idx: usize,
}

/// The emitter with its output set aside: everything that rendering reads.
pub open spec fn ctx(c: CEmitter) -> CEmitter {
    CEmitter { out: arbitrary(), ..c }
}

/// `x` followed by `s` on a line of its own, indented by `indent` levels of
/// four spaces.
pub open spec fn wl(x: Seq<char>, indent: int, s: Seq<char>) -> Seq<char> {
    x + Seq::new((4 * indent) as nat, |i: int| ' ') + s + "\n"@
}

/// Whether the emitter renders for a 64-bit guest.
pub open spec fn rv64(c: CEmitter) -> bool {
    c.config.xlen == Xlen::Rv64
}

/// Whether tracing hooks are rendered.
pub open spec fn tracing(c: CEmitter) -> bool {
    c.config.tracer_config.builtin != Some(TracerKind::NoTracer)
}

/// The state reference of the emitter.
pub open spec fn st(c: CEmitter) -> Seq<char> {
    state_text(c.sig.fixed_addresses)
}

/// An address literal: 16 hex digits and `ULL` for RV64, 8 and `u` for RV32.
pub open spec fn addr_text(c: CEmitter, a: u64) -> Seq<char> {
    if rv64(c) {
        "0x"@ + hex_padded(a as nat, 16) + "ULL"@
    } else {
        "0x"@ + hex_padded(a as nat, 8) + "u"@
    }
}

/// An immediate literal.
pub open spec fn imm_text(c: CEmitter, v: u64) -> Seq<char> {
    if rv64(c) {
        "0x"@ + hex(v as nat) + "ULL"@
    } else {
        "0x"@ + hex(v as nat) + "u"@
    }
}

/// A signed decimal.
pub open spec fn signed_decimal(v: int) -> Seq<char> {
    if v < 0 {
        "-"@ + decimal((-v) as nat)
    } else {
        decimal(v as nat)
    }
}

/// Memory read accessor for a width and signedness, traced or not.
pub open spec fn read_fn(traced: bool, width: u8, signed: bool, rv64: bool) -> Seq<char> {
    if traced {
        if width == 1 && signed {
            "trd_mem_i8"@
        } else if width == 1 {
            "trd_mem_u8"@
        } else if width == 2 && signed {
            "trd_mem_i16"@
        } else if width == 2 {
            "trd_mem_u16"@
        } else if width == 4 && signed && rv64 {
            "trd_mem_i32"@
        } else if width == 8 {
            "trd_mem_u64"@
        } else {
            "trd_mem_u32"@
        }
    } else {
        if width == 1 && signed {
            "rd_mem_i8"@
        } else if width == 1 {
            "rd_mem_u8"@
        } else if width == 2 && signed {
            "rd_mem_i16"@
        } else if width == 2 {
            "rd_mem_u16"@
        } else if width == 4 && signed && rv64 {
            "rd_mem_i32"@
        } else if width == 8 {
            "rd_mem_u64"@
        } else {
            "rd_mem_u32"@
        }
    }
}

/// A signed offset in decimal.
pub fn signed_text(v: i16) -> (r: String)
    ensures
        r@ == signed_decimal(v as int),
{
    if v < 0 {
        let m: i64 = 0 - (v as i64);
        let mut s = string_of("-");
        push_decimal(&mut s, m as u64);
        s
    } else {
        to_decimal(v as u64)
    }
}

/// A register read.
pub open spec fn read_reg_text(c: CEmitter, reg: u8) -> Seq<char> {
    if reg == 0 {
        if rv64(c) {
            "0x0ULL"@
        } else {
            "0"@
        }
    } else if tracing(c) {
        if c.sig.hot_reg_set@.contains(reg) {
            "trd_regval(&"@ + st(c) + "->tracer, "@ + addr_text(c, c.current_pc) + ", "@ + decimal(
                c.current_op as nat,
            ) + ", "@ + decimal(reg as nat) + ", "@ + reg_read_text(
                c.sig.hot_reg_set@,
                c.sig.fixed_addresses,
                reg,
            ) + ")"@
        } else {
            "trd_reg(&"@ + st(c) + "->tracer, "@ + addr_text(c, c.current_pc) + ", "@ + decimal(
                c.current_op as nat,
            ) + ", "@ + st(c) + ", "@ + decimal(reg as nat) + ")"@
        }
    } else {
        reg_read_text(c.sig.hot_reg_set@, c.sig.fixed_addresses, reg)
    }
}

/// A memory read at `base + offset`.
pub open spec fn mem_read_text(c: CEmitter, base: Seq<char>, offset: int, width: u8, signed: bool) -> Seq<
    char,
> {
    if tracing(c) {
        read_fn(true, width, signed, rv64(c)) + "(&"@ + st(c) + "->tracer, "@ + addr_text(
            c,
            c.current_pc,
        ) + ", "@ + decimal(c.current_op as nat) + ", memory, "@ + base + ", "@ + signed_decimal(
            offset,
        ) + ")"@
    } else if c.sig.fixed_addresses {
        read_fn(false, width, signed, rv64(c)) + "("@ + base + ", "@ + signed_decimal(offset) + ")"@
    } else {
        read_fn(false, width, signed, rv64(c)) + "(memory, "@ + base + ", "@ + signed_decimal(offset)
            + ")"@
    }
}

/// A CSR read (zero in perf mode).
pub open spec fn csr_read_text(c: CEmitter, csr: u16) -> Seq<char> {
    let state_arg = if c.sig.fixed_addresses {
        Seq::empty()
    } else {
        st(c) + ", "@
    };
    let counts = c.config.instret_mode != InstretMode::Off;
    if c.config.perf_mode {
        "0"@
    } else if tracing(c) {
        if counts {
            "trd_csr(&"@ + st(c) + "->tracer, "@ + addr_text(c, c.current_pc) + ", "@ + decimal(
                c.current_op as nat,
            ) + ", "@ + state_arg + "0x"@ + hex(csr as nat) + ", instret)"@
        } else {
            "trd_csr(&"@ + st(c) + "->tracer, "@ + addr_text(c, c.current_pc) + ", "@ + decimal(
                c.current_op as nat,
            ) + ", "@ + state_arg + "0x"@ + hex(csr as nat) + ")"@
        }
    } else if counts {
        "rd_csr("@ + state_arg + "0x"@ + hex(csr as nat) + ", instret)"@
    } else {
        "rd_csr("@ + state_arg + "0x"@ + hex(csr as nat) + ")"@
    }
}

/// Reads of state fields and temporaries.
pub open spec fn simple_read_text(c: CEmitter, r: ReadExpr) -> Seq<char> {
    match r {
        ReadExpr::Pc => st(c) + "->pc"@,
        ReadExpr::Cycle => if c.config.perf_mode {
            "0"@
        } else {
            st(c) + "->cycle"@
        },
        ReadExpr::Instret => if c.config.perf_mode {
            "0"@
        } else {
            st(c) + "->instret"@
        },
        ReadExpr::Temp(idx) => "_t"@ + decimal(idx as nat),
        ReadExpr::TraceIdx => st(c) + "->trace_idx"@,
        ReadExpr::PcIdx => st(c) + "->pc_idx"@,
        ReadExpr::ResAddr => st(c) + "->reservation_addr"@,
        ReadExpr::ResValid => st(c) + "->reservation_valid"@,
        ReadExpr::Exited => st(c) + "->exited"@,
        ReadExpr::ExitCode => st(c) + "->exit_code"@,
        _ => "0"@,
    }
}

/// Whether a binary operation is in the `basic` group.
pub open spec fn is_basic_op(op: BinaryOp) -> bool {
    op == BinaryOp::Add || op == BinaryOp::Sub || op == BinaryOp::Mul || op == BinaryOp::And || op == BinaryOp::Or || op == BinaryOp::Xor || op == BinaryOp::Sll || op == BinaryOp::Srl || op == BinaryOp::Sra || op == BinaryOp::Eq || op == BinaryOp::Ne || op == BinaryOp::Lt || op == BinaryOp::Ge || op == BinaryOp::Ltu || op == BinaryOp::Geu
}

/// Whether a binary operation is in the `div_rem` group.
pub open spec fn is_div_rem_op(op: BinaryOp) -> bool {
    op == BinaryOp::Div || op == BinaryOp::DivU || op == BinaryOp::Rem || op == BinaryOp::RemU
}

/// Whether a binary operation is in the `word` group.
pub open spec fn is_word_op(op: BinaryOp) -> bool {
    op == BinaryOp::AddW || op == BinaryOp::SubW || op == BinaryOp::MulW || op == BinaryOp::DivW || op == BinaryOp::DivUW || op == BinaryOp::RemW || op == BinaryOp::RemUW || op == BinaryOp::SllW || op == BinaryOp::SrlW || op == BinaryOp::SraW
}

/// Whether a binary operation is in the `mul_high` group.
pub open spec fn is_mul_high_op(op: BinaryOp) -> bool {
    op == BinaryOp::MulH || op == BinaryOp::MulHSU || op == BinaryOp::MulHU
}

/// Whether a binary operation is in the `pack` group.
pub open spec fn is_pack_op(op: BinaryOp) -> bool {
    op == BinaryOp::Pack || op == BinaryOp::Pack8 || op == BinaryOp::Pack16
}

/// A unary operation applied to the rendered operand `o`.
pub open spec fn unary_text(c: CEmitter, op: UnaryOp, o: Seq<char>) -> Seq<char> {
    let rt = c.reg_type@;
    let w = rv64(c);
    match op {
        UnaryOp::Not => "(~"@ + o + ")"@,
        UnaryOp::Neg => "(-"@ + o + ")"@,
        UnaryOp::Sext8 => "(("@ + rt + ")(int8_t)"@ + o + ")"@,
        UnaryOp::Sext16 => "(("@ + rt + ")(int16_t)"@ + o + ")"@,
        UnaryOp::Sext32 => if w {
            "((uint64_t)(int64_t)(int32_t)"@ + o + ")"@
        } else {
            o
        },
        UnaryOp::Zext8 => "(("@ + rt + ")(uint8_t)"@ + o + ")"@,
        UnaryOp::Zext16 => "(("@ + rt + ")(uint16_t)"@ + o + ")"@,
        UnaryOp::Zext32 => if w {
            "((uint64_t)(uint32_t)"@ + o + ")"@
        } else {
            o
        },
        UnaryOp::Clz => if w {
            "("@ + o + " ? __builtin_clzll("@ + o + ") : 64)"@
        } else {
            "("@ + o + " ? __builtin_clz("@ + o + ") : 32)"@
        },
        UnaryOp::Ctz => if w {
            "("@ + o + " ? __builtin_ctzll("@ + o + ") : 64)"@
        } else {
            "("@ + o + " ? __builtin_ctz("@ + o + ") : 32)"@
        },
        UnaryOp::Cpop => if w {
            "__builtin_popcountll("@ + o + ")"@
        } else {
            "__builtin_popcount("@ + o + ")"@
        },
        UnaryOp::Clz32 => "((uint64_t)((uint32_t)"@ + o + " ? __builtin_clz((uint32_t)"@ + o + ") : 32))"@,
        UnaryOp::Ctz32 => "((uint64_t)((uint32_t)"@ + o + " ? __builtin_ctz((uint32_t)"@ + o + ") : 32))"@,
        UnaryOp::Cpop32 => "((uint64_t)__builtin_popcount((uint32_t)"@ + o + "))"@,
        UnaryOp::Orc8 => if w {
            "rv_orc_b64("@ + o + ")"@
        } else {
            "rv_orc_b32("@ + o + ")"@
        },
        UnaryOp::Rev8 => if w {
            "__builtin_bswap64("@ + o + ")"@
        } else {
            "__builtin_bswap32("@ + o + ")"@
        },
        UnaryOp::Brev8 => if w {
            "rv_brev8_64("@ + o + ")"@
        } else {
            "rv_brev8_32("@ + o + ")"@
        },
        UnaryOp::Zip => "rv_zip32("@ + o + ")"@,
        UnaryOp::Unzip => "rv_unzip32("@ + o + ")"@,
    }
}

/// A binary operation applied to the rendered operands `l` and `r`.
pub open spec fn binary_text(c: CEmitter, op: BinaryOp, l: Seq<char>, r: Seq<char>) -> Seq<char> {
    let rt = c.reg_type@;
    let sg = c.signed_type@;
    let w = rv64(c);
    match op {
        BinaryOp::Add => "("@ + l + " + "@ + r + ")"@,
        BinaryOp::Sub => "("@ + l + " - "@ + r + ")"@,
        BinaryOp::Mul => "("@ + l + " * "@ + r + ")"@,
        BinaryOp::And => "("@ + l + " & "@ + r + ")"@,
        BinaryOp::Or => "("@ + l + " | "@ + r + ")"@,
        BinaryOp::Xor => "("@ + l + " ^ "@ + r + ")"@,
        BinaryOp::Sll => "("@ + l + " << "@ + r + ")"@,
        BinaryOp::Srl => "("@ + l + " >> "@ + r + ")"@,
        BinaryOp::Sra => "(("@ + rt + ")(("@ + sg + ")"@ + l + "  >> "@ + r + "))"@,
        BinaryOp::Eq => l + " == "@ + r,
        BinaryOp::Ne => l + " != "@ + r,
        BinaryOp::Lt => "("@ + sg + ")"@ + l + " < ("@ + sg + ")"@ + r,
        BinaryOp::Ge => "("@ + sg + ")"@ + l + " >= ("@ + sg + ")"@ + r,
        BinaryOp::Ltu => l + " < "@ + r,
        BinaryOp::Geu => l + " >= "@ + r,
        BinaryOp::Div => if w {
            "rv_div64("@ + l + ", "@ + r + ")"@
        } else {
            "rv_div("@ + l + ", "@ + r + ")"@
        },
        BinaryOp::DivU => if w {
            "rv_divu64("@ + l + ", "@ + r + ")"@
        } else {
            "rv_divu("@ + l + ", "@ + r + ")"@
        },
        BinaryOp::Rem => if w {
            "rv_rem64("@ + l + ", "@ + r + ")"@
        } else {
            "rv_rem("@ + l + ", "@ + r + ")"@
        },
        BinaryOp::RemU => if w {
            "rv_remu64("@ + l + ", "@ + r + ")"@
        } else {
            "rv_remu("@ + l + ", "@ + r + ")"@
        },
        BinaryOp::AddW => "((uint64_t)(int64_t)(int32_t)((uint32_t)"@ + l + " + (uint32_t)"@ + r + "))"@,
        BinaryOp::SubW => "((uint64_t)(int64_t)(int32_t)((uint32_t)"@ + l + " - (uint32_t)"@ + r + "))"@,
        BinaryOp::MulW => "((uint64_t)(int64_t)(int32_t)((uint32_t)"@ + l + " * (uint32_t)"@ + r + "))"@,
        BinaryOp::DivW => "rv_divw((int32_t)"@ + l + ", (int32_t)"@ + r + ")"@,
        BinaryOp::DivUW => "rv_divuw((uint32_t)"@ + l + ", (uint32_t)"@ + r + ")"@,
        BinaryOp::RemW => "rv_remw((int32_t)"@ + l + ", (int32_t)"@ + r + ")"@,
        BinaryOp::RemUW => "rv_remuw((uint32_t)"@ + l + ", (uint32_t)"@ + r + ")"@,
        BinaryOp::SllW => "((uint64_t)(int64_t)(int32_t)((uint32_t)"@ + l + " << "@ + r + "))"@,
        BinaryOp::SrlW => "((uint64_t)(int64_t)(int32_t)((uint32_t)"@ + l + " >> "@ + r + "))"@,
        BinaryOp::SraW => "((uint64_t)(int64_t)((int32_t)"@ + l + " >> "@ + r + "))"@,
        BinaryOp::MulH => if w {
            "rv_mulh64("@ + l + ", "@ + r + ")"@
        } else {
            "rv_mulh("@ + l + ", "@ + r + ")"@
        },
        BinaryOp::MulHSU => if w {
            "rv_mulhsu64("@ + l + ", "@ + r + ")"@
        } else {
            "rv_mulhsu("@ + l + ", "@ + r + ")"@
        },
        BinaryOp::MulHU => if w {
            "rv_mulhu64("@ + l + ", "@ + r + ")"@
        } else {
            "rv_mulhu("@ + l + ", "@ + r + ")"@
        },
        BinaryOp::Pack => if w {
            "(((uint64_t)(uint32_t)"@ + l + ") | ((uint64_t)(uint32_t)"@ + r + " << 32))"@
        } else {
            "(((uint32_t)(uint16_t)"@ + l + ") | ((uint32_t)(uint16_t)"@ + r + " << 16))"@
        },
        BinaryOp::Pack8 => "((("@ + rt + ")(uint8_t)"@ + l + ") | (("@ + rt + ")(uint8_t)"@ + r + " << 8))"@,
        BinaryOp::Pack16 => "((int64_t)(int32_t)(((uint32_t)(uint16_t)"@ + l + ") | ((uint32_t)(uint16_t)"@ + r + " << 16)))"@,
    }
}

/// An expression rendered as C.
pub open spec fn render(c: CEmitter, e: Expr) -> Seq<char>
    decreases e, 0int,
{
    match e {
        Expr::Imm(v) => imm_text(c, v),
        Expr::Read(r) => render_read(c, r),
        Expr::PcConst(pc) => addr_text(c, pc),
        Expr::Var(name) => if name@ == "state"@ && c.sig.fixed_addresses {
            STATE_FIXED_REF@
        } else {
            name@
        },
        Expr::Unary { op, expr } => unary_text(c, op, render(c, *expr)),
        Expr::Binary { op, left, right } => binary_text(c, op, render(c, *left), render(c, *right)),
        Expr::Ternary { op, first, second, third } => "("@ + render(c, *first) + " ? "@ + render(
            c,
            *second,
        ) + " : "@ + render(c, *third) + ")"@,
        Expr::ExternCall { name, args } => name@ + "("@ + render_args(c, args@, args@.len() as int)
            + ")"@,
    }
}

/// A read rendered as C.
pub open spec fn render_read(c: CEmitter, r: ReadExpr) -> Seq<char>
    decreases r, 0int,
{
    match r {
        ReadExpr::Reg(reg) => read_reg_text(c, reg),
        ReadExpr::Mem { base, offset, width, signed } => mem_read_text(
            c,
            render(c, *base),
            offset as int,
            width,
            signed,
        ),
        ReadExpr::MemAddr { addr, width, signed } => mem_read_text(c, render(c, *addr), 0, width, signed),
        ReadExpr::Csr(csr) => csr_read_text(c, csr),
        _ => simple_read_text(c, r),
    }
}

/// The first `n` arguments rendered and joined with `", "`.
pub open spec fn render_args(c: CEmitter, args: Seq<Expr>, n: int) -> Seq<char>
    decreases args, n,
{
    if n <= 0 || n > args.len() {
        seq![]
    } else if n == 1 {
        render(c, args[0])
    } else {
        render_args(c, args, n - 1) + ", "@ + render(c, args[n - 1])
    }
}

impl CEmitter {
    /// The emitter's invariant: the signature's hot registers are guest
    /// registers and the type names match the register width.
    pub open spec fn wf(self) -> bool {
        &&& self.sig.wf()
        &&& self.reg_type@ == if rv64(self) {
            "uint64_t"@
        } else {
            "uint32_t"@
        }
        &&& self.signed_type@ == if rv64(self) {
            "int64_t"@
        } else {
            "int32_t"@
        }
    }

    /// A new emitter for a configuration and the program's inputs.
    pub fn new(config: EmitConfig, inputs: EmitInputs) -> (r: Self)
        requires
            forall|i: int| 0 <= i < config.hot_regs@.len() ==> config.hot_regs@[i] < 32,
        ensures
            r.wf(),
            r.config == config,
            r.inputs == inputs,
            r.sig.hot_reg_set@ == config.hot_regs@.to_set(),
            r.sig.fixed_addresses == config.fixed_addresses.is_some(),
            r.out@ == Seq::<char>::empty(),
            r.current_pc == 0,
            r.current_op == 0,
            r.current_raw == 0,
            r.instr_idx == 0,
    {
        let (reg_type, signed_type) = match config.xlen {
            Xlen::Rv64 => ("uint64_t", "int64_t"),
            Xlen::Rv32 => ("uint32_t", "int32_t"),
        };
        let sig = FnSignature::new(&config);
        CEmitter {
            config,
            inputs,
            sig,
            out: String::new(),
            reg_type,
            signed_type,
            current_pc: 0,
            current_op: 0,
            current_raw: 0,
            instr_idx: 0,
        }
    }

    /// Clear the output and the current instruction.
    pub fn reset(&mut self)
        ensures
            final(self).out@ == Seq::<char>::empty(),
            final(self).current_pc == 0,
            final(self).current_op == 0,
            final(self).current_raw == 0,
            final(self).instr_idx == 0,
            final(self).config == old(self).config,
            final(self).inputs == old(self).inputs,
            final(self).sig == old(self).sig,
            final(self).reg_type == old(self).reg_type,
            final(self).signed_type == old(self).signed_type,
    {
        self.out = String::new();
        self.current_pc = 0;
        self.current_op = 0;
        self.current_raw = 0;
        self.instr_idx = 0;
    }

    /// The output so far.
    pub fn output(&self) -> (r: &str)
        ensures
            r@ == self.out@,
    {
        self.out.as_str()
    }

    /// The output, consuming the emitter.
    pub fn take_output(self) -> (r: String)
        ensures
            r@ == self.out@,
    {
        self.out
    }

    /// Whether a block starts at `addr`.
    pub fn is_valid_address(&self, addr: u64) -> (r: bool)
        ensures
            r == self.inputs.valid_addresses@.contains(addr),
    {
        self.inputs.valid_addresses.contains(&addr)
    }

    /// An address as a C literal.
    pub fn fmt_addr(&self, addr: u64) -> (r: String)
        ensures
            r@ == addr_text(ctx(ctx(*self)), addr),
    {
        let mut s = string_of("0x");
        match self.config.xlen {
            Xlen::Rv64 => {
                push_hex_padded(&mut s, addr, 16);
                push_str(&mut s, "ULL");
            },
            Xlen::Rv32 => {
                push_hex_padded(&mut s, addr, 8);
                push_str(&mut s, "u");
            },
        }
        s
    }

    /// A pc for comments: `0x` and lowercase hex digits.
    pub fn fmt_pc_comment(pc: u64) -> (r: String)
        ensures
            r@ == "0x"@ + hex(pc as nat),
    {
        let mut s = string_of("0x");
        push_hex(&mut s, pc);
        s
    }

    /// Write a line indented by `indent` levels of four spaces.
    pub fn writeln(&mut self, indent: usize, s: &str)
        ensures
            final(self).out@ == wl(old(self).out@, indent as int, s@),
            ctx(*final(self)) == ctx(*old(self)),
    {
        let ghost start = self.out@;
        let ghost before = *self;
        let mut k: usize = 0;
        while k < indent
            invariant
                k <= indent,
                self.out@ == start + Seq::new((4 * k) as nat, |i: int| ' '),
                ctx(*self) == ctx(before),
            decreases indent - k,
        {
            push_str(&mut self.out, "    ");
            proof {
                reveal_strlit("    ");
                assert(start + Seq::new((4 * (k + 1)) as nat, |i: int| ' ') =~= start + Seq::new(
                    (4 * k) as nat,
                    |i: int| ' ',
                ) + "    "@);
            }
            k += 1;
        }
        push_str(&mut self.out, s);
        push_str(&mut self.out, "\n");
    }

    /// Write without indentation.
    pub fn write(&mut self, s: &str)
        ensures
            final(self).out@ == old(self).out@ + s@,
            ctx(*final(self)) == ctx(*old(self)),
    {
        push_str(&mut self.out, s);
    }

    /// The state reference expression.
    pub fn state_ref(&self) -> (r: &'static str)
        ensures
            r@ == st(ctx(*self)),
    {
        state_ref(self.sig.fixed_addresses)
    }

    /// Whether state and memory live at fixed addresses.
    pub fn uses_fixed_addresses(&self) -> (r: bool)
        ensures
            r == self.sig.fixed_addresses,
    {
        self.sig.fixed_addresses
    }

    /// Render a unary operation over its rendered operand.
    fn render_unary_op(&self, op: UnaryOp, o: &str) -> (res: String)
        requires
            self.wf(),
        ensures
            res@ == unary_text(ctx(ctx(*self)), op, o@),
    {
        let rt = self.reg_type;
        let w = match self.config.xlen {
            Xlen::Rv64 => true,
            Xlen::Rv32 => false,
        };
        match op {
            UnaryOp::Not => {
                let mut s = string_of("(~");
                push_str(&mut s, o);
                push_str(&mut s, ")");
                s
            },
            UnaryOp::Neg => {
                let mut s = string_of("(-");
                push_str(&mut s, o);
                push_str(&mut s, ")");
                s
            },
            UnaryOp::Sext8 => {
                let mut s = string_of("((");
                push_str(&mut s, rt);
                push_str(&mut s, ")(int8_t)");
                push_str(&mut s, o);
                push_str(&mut s, ")");
                s
            },
            UnaryOp::Sext16 => {
                let mut s = string_of("((");
                push_str(&mut s, rt);
                push_str(&mut s, ")(int16_t)");
                push_str(&mut s, o);
                push_str(&mut s, ")");
                s
            },
            UnaryOp::Sext32 => {
                if w {
                    let mut s = string_of("((uint64_t)(int64_t)(int32_t)");
                    push_str(&mut s, o);
                    push_str(&mut s, ")");
                    s
                } else {
                    let mut s = string_of(o);
                    s
                }
            },
            UnaryOp::Zext8 => {
                let mut s = string_of("((");
                push_str(&mut s, rt);
                push_str(&mut s, ")(uint8_t)");
                push_str(&mut s, o);
                push_str(&mut s, ")");
                s
            },
            UnaryOp::Zext16 => {
                let mut s = string_of("((");
                push_str(&mut s, rt);
                push_str(&mut s, ")(uint16_t)");
                push_str(&mut s, o);
                push_str(&mut s, ")");
                s
            },
            UnaryOp::Zext32 => {
                if w {
                    let mut s = string_of("((uint64_t)(uint32_t)");
                    push_str(&mut s, o);
                    push_str(&mut s, ")");
                    s
                } else {
                    let mut s = string_of(o);
                    s
                }
            },
            UnaryOp::Clz => {
                if w {
                    let mut s = string_of("(");
                    push_str(&mut s, o);
                    push_str(&mut s, " ? __builtin_clzll(");
                    push_str(&mut s, o);
                    push_str(&mut s, ") : 64)");
                    s
                } else {
                    let mut s = string_of("(");
                    push_str(&mut s, o);
                    push_str(&mut s, " ? __builtin_clz(");
                    push_str(&mut s, o);
                    push_str(&mut s, ") : 32)");
                    s
                }
            },
            UnaryOp::Ctz => {
                if w {
                    let mut s = string_of("(");
                    push_str(&mut s, o);
                    push_str(&mut s, " ? __builtin_ctzll(");
                    push_str(&mut s, o);
                    push_str(&mut s, ") : 64)");
                    s
                } else {
                    let mut s = string_of("(");
                    push_str(&mut s, o);
                    push_str(&mut s, " ? __builtin_ctz(");
                    push_str(&mut s, o);
                    push_str(&mut s, ") : 32)");
                    s
                }
            },
            UnaryOp::Cpop => {
                if w {
                    let mut s = string_of("__builtin_popcountll(");
                    push_str(&mut s, o);
                    push_str(&mut s, ")");
                    s
                } else {
                    let mut s = string_of("__builtin_popcount(");
                    push_str(&mut s, o);
                    push_str(&mut s, ")");
                    s
                }
            },
            UnaryOp::Clz32 => {
                let mut s = string_of("((uint64_t)((uint32_t)");
                push_str(&mut s, o);
                push_str(&mut s, " ? __builtin_clz((uint32_t)");
                push_str(&mut s, o);
                push_str(&mut s, ") : 32))");
                s
            },
            UnaryOp::Ctz32 => {
                let mut s = string_of("((uint64_t)((uint32_t)");
                push_str(&mut s, o);
                push_str(&mut s, " ? __builtin_ctz((uint32_t)");
                push_str(&mut s, o);
                push_str(&mut s, ") : 32))");
                s
            },
            UnaryOp::Cpop32 => {
                let mut s = string_of("((uint64_t)__builtin_popcount((uint32_t)");
                push_str(&mut s, o);
                push_str(&mut s, "))");
                s
            },
            UnaryOp::Orc8 => {
                if w {
                    let mut s = string_of("rv_orc_b64(");
                    push_str(&mut s, o);
                    push_str(&mut s, ")");
                    s
                } else {
                    let mut s = string_of("rv_orc_b32(");
                    push_str(&mut s, o);
                    push_str(&mut s, ")");
                    s
                }
            },
            UnaryOp::Rev8 => {
                if w {
                    let mut s = string_of("__builtin_bswap64(");
                    push_str(&mut s, o);
                    push_str(&mut s, ")");
                    s
                } else {
                    let mut s = string_of("__builtin_bswap32(");
                    push_str(&mut s, o);
                    push_str(&mut s, ")");
                    s
                }
            },
            UnaryOp::Brev8 => {
                if w {
                    let mut s = string_of("rv_brev8_64(");
                    push_str(&mut s, o);
                    push_str(&mut s, ")");
                    s
                } else {
                    let mut s = string_of("rv_brev8_32(");
                    push_str(&mut s, o);
                    push_str(&mut s, ")");
                    s
                }
            },
            UnaryOp::Zip => {
                let mut s = string_of("rv_zip32(");
                push_str(&mut s, o);
                push_str(&mut s, ")");
                s
            },
            UnaryOp::Unzip => {
                let mut s = string_of("rv_unzip32(");
                push_str(&mut s, o);
                push_str(&mut s, ")");
                s
            },
        }
    }

    /// Render a binary operation of the `basic` group, or `None` for others.
    fn render_binary_basic(&self, op: BinaryOp, l: &str, r: &str) -> (res: Option<String>)
        requires
            self.wf(),
        ensures
            res is Some <==> is_basic_op(op),
            res matches Some(t) ==> t@ == binary_text(ctx(ctx(*self)), op, l@, r@),
    {
        let rt = self.reg_type;
        let sg = self.signed_type;
        let w = match self.config.xlen {
            Xlen::Rv64 => true,
            Xlen::Rv32 => false,
        };
        match op {
            BinaryOp::Add => Some({
                let mut s = string_of("(");
                push_str(&mut s, l);
                push_str(&mut s, " + ");
                push_str(&mut s, r);
                push_str(&mut s, ")");
                s
            }),
            BinaryOp::Sub => Some({
                let mut s = string_of("(");
                push_str(&mut s, l);
                push_str(&mut s, " - ");
                push_str(&mut s, r);
                push_str(&mut s, ")");
                s
            }),
            BinaryOp::Mul => Some({
                let mut s = string_of("(");
                push_str(&mut s, l);
                push_str(&mut s, " * ");
                push_str(&mut s, r);
                push_str(&mut s, ")");
                s
            }),
            BinaryOp::And => Some({
                let mut s = string_of("(");
                push_str(&mut s, l);
                push_str(&mut s, " & ");
                push_str(&mut s, r);
                push_str(&mut s, ")");
                s
            }),
            BinaryOp::Or => Some({
                let mut s = string_of("(");
                push_str(&mut s, l);
                push_str(&mut s, " | ");
                push_str(&mut s, r);
                push_str(&mut s, ")");
                s
            }),
            BinaryOp::Xor => Some({
                let mut s = string_of("(");
                push_str(&mut s, l);
                push_str(&mut s, " ^ ");
                push_str(&mut s, r);
                push_str(&mut s, ")");
                s
            }),
            BinaryOp::Sll => Some({
                let mut s = string_of("(");
                push_str(&mut s, l);
                push_str(&mut s, " << ");
                push_str(&mut s, r);
                push_str(&mut s, ")");
                s
            }),
            BinaryOp::Srl => Some({
                let mut s = string_of("(");
                push_str(&mut s, l);
                push_str(&mut s, " >> ");
                push_str(&mut s, r);
                push_str(&mut s, ")");
                s
            }),
            BinaryOp::Sra => Some({
                let mut s = string_of("((");
                push_str(&mut s, rt);
                push_str(&mut s, ")((");
                push_str(&mut s, sg);
                push_str(&mut s, ")");
                push_str(&mut s, l);
                push_str(&mut s, "  >> ");
                push_str(&mut s, r);
                push_str(&mut s, "))");
                s
            }),
            BinaryOp::Eq => Some({
                let mut s = string_of(l);
                push_str(&mut s, " == ");
                push_str(&mut s, r);
                s
            }),
            BinaryOp::Ne => Some({
                let mut s = string_of(l);
                push_str(&mut s, " != ");
                push_str(&mut s, r);
                s
            }),
            BinaryOp::Lt => Some({
                let mut s = string_of("(");
                push_str(&mut s, sg);
                push_str(&mut s, ")");
                push_str(&mut s, l);
                push_str(&mut s, " < (");
                push_str(&mut s, sg);
                push_str(&mut s, ")");
                push_str(&mut s, r);
                s
            }),
            BinaryOp::Ge => Some({
                let mut s = string_of("(");
                push_str(&mut s, sg);
                push_str(&mut s, ")");
                push_str(&mut s, l);
                push_str(&mut s, " >= (");
                push_str(&mut s, sg);
                push_str(&mut s, ")");
                push_str(&mut s, r);
                s
            }),
            BinaryOp::Ltu => Some({
                let mut s = string_of(l);
                push_str(&mut s, " < ");
                push_str(&mut s, r);
                s
            }),
            BinaryOp::Geu => Some({
                let mut s = string_of(l);
                push_str(&mut s, " >= ");
                push_str(&mut s, r);
                s
            }),
            _ => None,
        }
    }

    /// Render a binary operation of the `div_rem` group, or `None` for others.
    fn render_binary_div_rem(&self, op: BinaryOp, l: &str, r: &str) -> (res: Option<String>)
        requires
            self.wf(),
        ensures
            res is Some <==> is_div_rem_op(op),
            res matches Some(t) ==> t@ == binary_text(ctx(ctx(*self)), op, l@, r@),
    {
        let rt = self.reg_type;
        let sg = self.signed_type;
        let w = match self.config.xlen {
            Xlen::Rv64 => true,
            Xlen::Rv32 => false,
        };
        match op {
            BinaryOp::Div => Some({
                if w {
                    let mut s = string_of("rv_div64(");
                    push_str(&mut s, l);
                    push_str(&mut s, ", ");
                    push_str(&mut s, r);
                    push_str(&mut s, ")");
                    s
                } else {
                    let mut s = string_of("rv_div(");
                    push_str(&mut s, l);
                    push_str(&mut s, ", ");
                    push_str(&mut s, r);
                    push_str(&mut s, ")");
                    s
                }
            }),
            BinaryOp::DivU => Some({
                if w {
                    let mut s = string_of("rv_divu64(");
                    push_str(&mut s, l);
                    push_str(&mut s, ", ");
                    push_str(&mut s, r);
                    push_str(&mut s, ")");
                    s
                } else {
                    let mut s = string_of("rv_divu(");
                    push_str(&mut s, l);
                    push_str(&mut s, ", ");
                    push_str(&mut s, r);
                    push_str(&mut s, ")");
                    s
                }
            }),
            BinaryOp::Rem => Some({
                if w {
                    let mut s = string_of("rv_rem64(");
                    push_str(&mut s, l);
                    push_str(&mut s, ", ");
                    push_str(&mut s, r);
                    push_str(&mut s, ")");
                    s
                } else {
                    let mut s = string_of("rv_rem(");
                    push_str(&mut s, l);
                    push_str(&mut s, ", ");
                    push_str(&mut s, r);
                    push_str(&mut s, ")");
                    s
                }
            }),
            BinaryOp::RemU => Some({
                if w {
                    let mut s = string_of("rv_remu64(");
                    push_str(&mut s, l);
                    push_str(&mut s, ", ");
                    push_str(&mut s, r);
                    push_str(&mut s, ")");
                    s
                } else {
                    let mut s = string_of("rv_remu(");
                    push_str(&mut s, l);
                    push_str(&mut s, ", ");
                    push_str(&mut s, r);
                    push_str(&mut s, ")");
                    s
                }
            }),
            _ => None,
        }
    }

    /// Render a binary operation of the `word` group, or `None` for others.
    fn render_binary_word(&self, op: BinaryOp, l: &str, r: &str) -> (res: Option<String>)
        requires
            self.wf(),
        ensures
            res is Some <==> is_word_op(op),
            res matches Some(t) ==> t@ == binary_text(ctx(ctx(*self)), op, l@, r@),
    {
        let rt = self.reg_type;
        let sg = self.signed_type;
        let w = match self.config.xlen {
            Xlen::Rv64 => true,
            Xlen::Rv32 => false,
        };
        match op {
            BinaryOp::AddW => Some({
                let mut s = string_of("((uint64_t)(int64_t)(int32_t)((uint32_t)");
                push_str(&mut s, l);
                push_str(&mut s, " + (uint32_t)");
                push_str(&mut s, r);
                push_str(&mut s, "))");
                s
            }),
            BinaryOp::SubW => Some({
                let mut s = string_of("((uint64_t)(int64_t)(int32_t)((uint32_t)");
                push_str(&mut s, l);
                push_str(&mut s, " - (uint32_t)");
                push_str(&mut s, r);
                push_str(&mut s, "))");
                s
            }),
            BinaryOp::MulW => Some({
                let mut s = string_of("((uint64_t)(int64_t)(int32_t)((uint32_t)");
                push_str(&mut s, l);
                push_str(&mut s, " * (uint32_t)");
                push_str(&mut s, r);
                push_str(&mut s, "))");
                s
            }),
            BinaryOp::DivW => Some({
                let mut s = string_of("rv_divw((int32_t)");
                push_str(&mut s, l);
                push_str(&mut s, ", (int32_t)");
                push_str(&mut s, r);
                push_str(&mut s, ")");
                s
            }),
            BinaryOp::DivUW => Some({
                let mut s = string_of("rv_divuw((uint32_t)");
                push_str(&mut s, l);
                push_str(&mut s, ", (uint32_t)");
                push_str(&mut s, r);
                push_str(&mut s, ")");
                s
            }),
            BinaryOp::RemW => Some({
                let mut s = string_of("rv_remw((int32_t)");
                push_str(&mut s, l);
                push_str(&mut s, ", (int32_t)");
                push_str(&mut s, r);
                push_str(&mut s, ")");
                s
            }),
            BinaryOp::RemUW => Some({
                let mut s = string_of("rv_remuw((uint32_t)");
                push_str(&mut s, l);
                push_str(&mut s, ", (uint32_t)");
                push_str(&mut s, r);
                push_str(&mut s, ")");
                s
            }),
            BinaryOp::SllW => Some({
                let mut s = string_of("((uint64_t)(int64_t)(int32_t)((uint32_t)");
                push_str(&mut s, l);
                push_str(&mut s, " << ");
                push_str(&mut s, r);
                push_str(&mut s, "))");
                s
            }),
            BinaryOp::SrlW => Some({
                let mut s = string_of("((uint64_t)(int64_t)(int32_t)((uint32_t)");
                push_str(&mut s, l);
                push_str(&mut s, " >> ");
                push_str(&mut s, r);
                push_str(&mut s, "))");
                s
            }),
            BinaryOp::SraW => Some({
                let mut s = string_of("((uint64_t)(int64_t)((int32_t)");
                push_str(&mut s, l);
                push_str(&mut s, " >> ");
                push_str(&mut s, r);
                push_str(&mut s, "))");
                s
            }),
            _ => None,
        }
    }

    /// Render a binary operation of the `mul_high` group, or `None` for others.
    fn render_binary_mul_high(&self, op: BinaryOp, l: &str, r: &str) -> (res: Option<String>)
        requires
            self.wf(),
        ensures
            res is Some <==> is_mul_high_op(op),
            res matches Some(t) ==> t@ == binary_text(ctx(ctx(*self)), op, l@, r@),
    {
        let rt = self.reg_type;
        let sg = self.signed_type;
        let w = match self.config.xlen {
            Xlen::Rv64 => true,
            Xlen::Rv32 => false,
        };
        match op {
            BinaryOp::MulH => Some({
                if w {
                    let mut s = string_of("rv_mulh64(");
                    push_str(&mut s, l);
                    push_str(&mut s, ", ");
                    push_str(&mut s, r);
                    push_str(&mut s, ")");
                    s
                } else {
                    let mut s = string_of("rv_mulh(");
                    push_str(&mut s, l);
                    push_str(&mut s, ", ");
                    push_str(&mut s, r);
                    push_str(&mut s, ")");
                    s
                }
            }),
            BinaryOp::MulHSU => Some({
                if w {
                    let mut s = string_of("rv_mulhsu64(");
                    push_str(&mut s, l);
                    push_str(&mut s, ", ");
                    push_str(&mut s, r);
                    push_str(&mut s, ")");
                    s
                } else {
                    let mut s = string_of("rv_mulhsu(");
                    push_str(&mut s, l);
                    push_str(&mut s, ", ");
                    push_str(&mut s, r);
                    push_str(&mut s, ")");
                    s
                }
            }),
            BinaryOp::MulHU => Some({
                if w {
                    let mut s = string_of("rv_mulhu64(");
                    push_str(&mut s, l);
                    push_str(&mut s, ", ");
                    push_str(&mut s, r);
                    push_str(&mut s, ")");
                    s
                } else {
                    let mut s = string_of("rv_mulhu(");
                    push_str(&mut s, l);
                    push_str(&mut s, ", ");
                    push_str(&mut s, r);
                    push_str(&mut s, ")");
                    s
                }
            }),
            _ => None,
        }
    }

    /// Render a binary operation of the `pack` group, or `None` for others.
    fn render_binary_pack(&self, op: BinaryOp, l: &str, r: &str) -> (res: Option<String>)
        requires
            self.wf(),
        ensures
            res is Some <==> is_pack_op(op),
            res matches Some(t) ==> t@ == binary_text(ctx(ctx(*self)), op, l@, r@),
    {
        let rt = self.reg_type;
        let sg = self.signed_type;
        let w = match self.config.xlen {
            Xlen::Rv64 => true,
            Xlen::Rv32 => false,
        };
        match op {
            BinaryOp::Pack => Some({
                if w {
                    let mut s = string_of("(((uint64_t)(uint32_t)");
                    push_str(&mut s, l);
                    push_str(&mut s, ") | ((uint64_t)(uint32_t)");
                    push_str(&mut s, r);
                    push_str(&mut s, " << 32))");
                    s
                } else {
                    let mut s = string_of("(((uint32_t)(uint16_t)");
                    push_str(&mut s, l);
                    push_str(&mut s, ") | ((uint32_t)(uint16_t)");
                    push_str(&mut s, r);
                    push_str(&mut s, " << 16))");
                    s
                }
            }),
            BinaryOp::Pack8 => Some({
                let mut s = string_of("(((");
                push_str(&mut s, rt);
                push_str(&mut s, ")(uint8_t)");
                push_str(&mut s, l);
                push_str(&mut s, ") | ((");
                push_str(&mut s, rt);
                push_str(&mut s, ")(uint8_t)");
                push_str(&mut s, r);
                push_str(&mut s, " << 8))");
                s
            }),
            BinaryOp::Pack16 => Some({
                let mut s = string_of("((int64_t)(int32_t)(((uint32_t)(uint16_t)");
                push_str(&mut s, l);
                push_str(&mut s, ") | ((uint32_t)(uint16_t)");
                push_str(&mut s, r);
                push_str(&mut s, " << 16)))");
                s
            }),
            _ => None,
        }
    }

    /// Render an expression as C.
    pub fn render_expr(&self, e: &Expr) -> (res: String)
        requires
            self.wf(),
        ensures
            res@ == render(ctx(ctx(*self)), *e),
        decreases *e, 0int,
    {
        match e {
            Expr::Imm(v) => self.render_imm(*v),
            Expr::Read(r) => self.render_read(r),
            Expr::PcConst(pc) => self.fmt_addr(*pc),
            Expr::Var(name) => self.render_var(name.as_str()),
            Expr::Unary { op, expr } => {
                let o = self.render_expr(expr);
                self.render_unary_op(*op, o.as_str())
            },
            Expr::Binary { op, left, right } => {
                let l = self.render_expr(left);
                let r = self.render_expr(right);
                self.render_binary_expr(*op, l.as_str(), r.as_str())
            },
            Expr::Ternary { op, first, second, third } => {
                let c = self.render_expr(first);
                let t = self.render_expr(second);
                let f = self.render_expr(third);
                match op {
                    TernaryOp::Select => {
                        let mut s = string_of("(");
                        push_str(&mut s, c.as_str());
                        push_str(&mut s, " ? ");
                        push_str(&mut s, t.as_str());
                        push_str(&mut s, " : ");
                        push_str(&mut s, f.as_str());
                        push_str(&mut s, ")");
                        s
                    },
                }
            },
            Expr::ExternCall { name, args } => {
                let mut joined = String::new();
                let mut i: usize = 0;
                while i < args.len()
                    invariant
                        self.wf(),
                        i <= args.len(),
                        *e == (Expr::ExternCall { name: *name, args: *args }),
                        joined@ == render_args(ctx(ctx(*self)), args@, i as int),
                    decreases args.len() - i,
                {
                    proof {
                        assert(decreases_to!(*e => (*e)->args));
                        assert(decreases_to!(*args => args@));
                        assert(decreases_to!(args@ => args@[i as int]));
                    }
                    let a = self.render_expr(&args[i]);
                    if i > 0 {
                        push_str(&mut joined, ", ");
                    }
                    push_str(&mut joined, a.as_str());
                    i += 1;
                }
                let mut s = string_of(name.as_str());
                push_str(&mut s, "(");
                push_str(&mut s, joined.as_str());
                push_str(&mut s, ")");
                s
            },
        }
    }

    /// An immediate literal.
    fn render_imm(&self, v: u64) -> (res: String)
        ensures
            res@ == imm_text(ctx(ctx(*self)), v),
    {
        let mut s = string_of("0x");
        push_hex(&mut s, v);
        match self.config.xlen {
            Xlen::Rv64 => push_str(&mut s, "ULL"),
            Xlen::Rv32 => push_str(&mut s, "u"),
        }
        s
    }

    /// A variable: `state` names the fixed state address in fixed address mode.
    fn render_var(&self, name: &str) -> (res: String)
        ensures
            res@ == (if name@ == "state"@ && self.sig.fixed_addresses {
                STATE_FIXED_REF@
            } else {
                name@
            }),
    {
        if str_eq(name, "state") && self.sig.fixed_addresses {
            string_of(STATE_FIXED_REF)
        } else {
            string_of(name)
        }
    }

    /// A binary operation over its rendered operands.
    fn render_binary_expr(&self, op: BinaryOp, l: &str, r: &str) -> (res: String)
        requires
            self.wf(),
        ensures
            res@ == binary_text(ctx(ctx(*self)), op, l@, r@),
    {
        if let Some(t) = self.render_binary_basic(op, l, r) {
            return t;
        }
        if let Some(t) = self.render_binary_div_rem(op, l, r) {
            return t;
        }
        if let Some(t) = self.render_binary_word(op, l, r) {
            return t;
        }
        if let Some(t) = self.render_binary_mul_high(op, l, r) {
            return t;
        }
        match self.render_binary_pack(op, l, r) {
            Some(t) => t,
            None => {
                proof {
                    assert(false);
                }
                String::new()
            },
        }
    }

    /// A read rendered as C.
    fn render_read(&self, r: &ReadExpr) -> (res: String)
        requires
            self.wf(),
        ensures
            res@ == render_read(ctx(ctx(*self)), *r),
        decreases *r, 0int,
    {
        match r {
            ReadExpr::Reg(reg) => self.render_read_reg(*reg),
            ReadExpr::Mem { base, offset, width, signed } => {
                let b = self.render_expr(base);
                self.render_mem_read(b.as_str(), *offset, *width, *signed)
            },
            ReadExpr::MemAddr { addr, width, signed } => {
                let b = self.render_expr(addr);
                self.render_mem_read(b.as_str(), 0, *width, *signed)
            },
            ReadExpr::Csr(csr) => self.render_read_csr(*csr),
            _ => self.render_read_simple(r),
        }
    }

    /// A register read, through the tracer when tracing.
    fn render_read_reg(&self, reg: u8) -> (res: String)
        requires
            self.wf(),
        ensures
            res@ == read_reg_text(ctx(ctx(*self)), reg),
    {
        if reg == 0 {
            match self.config.xlen {
                Xlen::Rv64 => string_of("0x0ULL"),
                Xlen::Rv32 => string_of("0"),
            }
        } else if self.config.has_tracing() {
            let pc_lit = self.fmt_addr(self.current_pc);
            let state = self.state_ref();
            if self.sig.is_hot_reg(reg) {
                let val = self.sig.reg_read(reg);
                let mut s = string_of("trd_regval(&");
                push_str(&mut s, state);
                push_str(&mut s, "->tracer, ");
                push_str(&mut s, pc_lit.as_str());
                push_str(&mut s, ", ");
                push_decimal(&mut s, self.current_op as u64);
                push_str(&mut s, ", ");
                push_decimal(&mut s, reg as u64);
                push_str(&mut s, ", ");
                push_str(&mut s, val.as_str());
                push_str(&mut s, ")");
                s
            } else {
                let mut s = string_of("trd_reg(&");
                push_str(&mut s, state);
                push_str(&mut s, "->tracer, ");
                push_str(&mut s, pc_lit.as_str());
                push_str(&mut s, ", ");
                push_decimal(&mut s, self.current_op as u64);
                push_str(&mut s, ", ");
                push_str(&mut s, state);
                push_str(&mut s, ", ");
                push_decimal(&mut s, reg as u64);
                push_str(&mut s, ")");
                s
            }
        } else {
            self.sig.reg_read(reg)
        }
    }

    /// The traced load accessor for a width and signedness.
    fn mem_trace_read_fn(&self, width: u8, signed: bool) -> (r: &'static str)
        ensures
            r@ == read_fn(true, width, signed, rv64(ctx(*self))),
    {
        let w = match self.config.xlen {
            Xlen::Rv64 => true,
            Xlen::Rv32 => false,
        };
        if width == 1 && signed {
            "trd_mem_i8"
        } else if width == 1 {
            "trd_mem_u8"
        } else if width == 2 && signed {
            "trd_mem_i16"
        } else if width == 2 {
            "trd_mem_u16"
        } else if width == 4 && signed && w {
            "trd_mem_i32"
        } else if width == 8 {
            "trd_mem_u64"
        } else {
            "trd_mem_u32"
        }
    }

    /// The load accessor for a width and signedness.
    fn mem_read_fn(&self, width: u8, signed: bool) -> (r: &'static str)
        ensures
            r@ == read_fn(false, width, signed, rv64(ctx(*self))),
    {
        let w = match self.config.xlen {
            Xlen::Rv64 => true,
            Xlen::Rv32 => false,
        };
        if width == 1 && signed {
            "rd_mem_i8"
        } else if width == 1 {
            "rd_mem_u8"
        } else if width == 2 && signed {
            "rd_mem_i16"
        } else if width == 2 {
            "rd_mem_u16"
        } else if width == 4 && signed && w {
            "rd_mem_i32"
        } else if width == 8 {
            "rd_mem_u64"
        } else {
            "rd_mem_u32"
        }
    }

    /// A memory read at `base + offset`.
    fn render_mem_read(&self, base: &str, offset: i16, width: u8, signed: bool) -> (res: String)
        requires
            self.wf(),
        ensures
            res@ == mem_read_text(ctx(ctx(*self)), base@, offset as int, width, signed),
    {
        let off = signed_text(offset);
        if self.config.has_tracing() {
            let pc_lit = self.fmt_addr(self.current_pc);
            let mut s = string_of(self.mem_trace_read_fn(width, signed));
            push_str(&mut s, "(&");
            push_str(&mut s, self.state_ref());
            push_str(&mut s, "->tracer, ");
            push_str(&mut s, pc_lit.as_str());
            push_str(&mut s, ", ");
            push_decimal(&mut s, self.current_op as u64);
            push_str(&mut s, ", memory, ");
            push_str(&mut s, base);
            push_str(&mut s, ", ");
            push_str(&mut s, off.as_str());
            push_str(&mut s, ")");
            s
        } else if self.uses_fixed_addresses() {
            let mut s = string_of(self.mem_read_fn(width, signed));
            push_str(&mut s, "(");
            push_str(&mut s, base);
            push_str(&mut s, ", ");
            push_str(&mut s, off.as_str());
            push_str(&mut s, ")");
            s
        } else {
            let mut s = string_of(self.mem_read_fn(width, signed));
            push_str(&mut s, "(memory, ");
            push_str(&mut s, base);
            push_str(&mut s, ", ");
            push_str(&mut s, off.as_str());
            push_str(&mut s, ")");
            s
        }
    }

    /// A CSR read: zero in perf mode, through the tracer when tracing.
    fn render_read_csr(&self, csr: u16) -> (res: String)
        requires
            self.wf(),
        ensures
            res@ == csr_read_text(ctx(ctx(*self)), csr),
    {
        if self.config.perf_mode {
            return string_of("0");
        }
        let state = self.state_ref();
        let state_arg = if self.uses_fixed_addresses() {
            String::new()
        } else {
            let mut a = string_of(state);
            push_str(&mut a, ", ");
            a
        };
        let counts = self.config.instret_mode.counts();
        if self.config.has_tracing() {
            let pc_lit = self.fmt_addr(self.current_pc);
            let mut s = string_of("trd_csr(&");
            push_str(&mut s, state);
            push_str(&mut s, "->tracer, ");
            push_str(&mut s, pc_lit.as_str());
            push_str(&mut s, ", ");
            push_decimal(&mut s, self.current_op as u64);
            push_str(&mut s, ", ");
            push_str(&mut s, state_arg.as_str());
            push_str(&mut s, "0x");
            push_hex(&mut s, csr as u64);
            if counts {
                push_str(&mut s, ", instret)");
            } else {
                push_str(&mut s, ")");
            }
            s
        } else {
            let mut s = string_of("rd_csr(");
            push_str(&mut s, state_arg.as_str());
            push_str(&mut s, "0x");
            push_hex(&mut s, csr as u64);
            if counts {
                push_str(&mut s, ", instret)");
            } else {
                push_str(&mut s, ")");
            }
            s
        }
    }

    /// Reads of state fields and temporaries.
    fn render_read_simple(&self, r: &ReadExpr) -> (res: String)
        ensures
            res@ == simple_read_text(ctx(ctx(*self)), *r),
    {
        let state = self.state_ref();
        match r {
            ReadExpr::Pc => {
                let mut s = string_of(state);
                push_str(&mut s, "->pc");
                s
            },
            ReadExpr::Cycle => {
                if self.config.perf_mode {
                    string_of("0")
                } else {
                    let mut s = string_of(state);
                    push_str(&mut s, "->cycle");
                    s
                }
            },
            ReadExpr::Instret => {
                if self.config.perf_mode {
                    string_of("0")
                } else {
                    let mut s = string_of(state);
                    push_str(&mut s, "->instret");
                    s
                }
            },
            ReadExpr::Temp(idx) => {
                let mut s = string_of("_t");
                push_decimal(&mut s, *idx as u64);
                s
            },
            ReadExpr::TraceIdx => {
                let mut s = string_of(state);
                push_str(&mut s, "->trace_idx");
                s
            },
            ReadExpr::PcIdx => {
                let mut s = string_of(state);
                push_str(&mut s, "->pc_idx");
                s
            },
            ReadExpr::ResAddr => {
                let mut s = string_of(state);
                push_str(&mut s, "->reservation_addr");
                s
            },
            ReadExpr::ResValid => {
                let mut s = string_of(state);
                push_str(&mut s, "->reservation_valid");
                s
            },
            ReadExpr::Exited => {
                let mut s = string_of(state);
                push_str(&mut s, "->exited");
                s
            },
            ReadExpr::ExitCode => {
                let mut s = string_of(state);
                push_str(&mut s, "->exit_code");
                s
            },
            _ => string_of("0"),
        }
    }
}

/// A rendered operand cast to the emitter's signed register type.
pub open spec fn signed_cast(c: CEmitter, x: Seq<char>) -> Seq<char> {
    "("@ + c.signed_type@ + ")"@ + x
}

/// The signed comparisons (LT, GE) render as the unsigned ones (LTU, GEU)
/// applied to both operands cast to the signed register type (`int64_t` on
/// RV64, `int32_t` on RV32), so that C compares them as two's-complement
/// values; and a signed comparison never renders as its unsigned one.
pub proof fn law_signed_compare_casts(c: CEmitter, l: Seq<char>, r: Seq<char>)
    ensures
        c.wf() ==> c.signed_type@ == if rv64(c) {
            "int64_t"@
        } else {
            "int32_t"@
        },
        binary_text(c, BinaryOp::Lt, l, r) == binary_text(
            c,
            BinaryOp::Ltu,
            signed_cast(c, l),
            signed_cast(c, r),
        ),
        binary_text(c, BinaryOp::Ge, l, r) == binary_text(
            c,
            BinaryOp::Geu,
            signed_cast(c, l),
            signed_cast(c, r),
        ),
        binary_text(c, BinaryOp::Lt, l, r) != binary_text(c, BinaryOp::Ltu, l, r),
        binary_text(c, BinaryOp::Ge, l, r) != binary_text(c, BinaryOp::Geu, l, r),
{
    reveal_strlit("(");
    reveal_strlit(")");
    reveal_strlit(" < (");
    reveal_strlit(" >= (");
    reveal_strlit(" < ");
    reveal_strlit(" >= ");
    let sg = c.signed_type@;
    assert(binary_text(c, BinaryOp::Lt, l, r) =~= binary_text(
        c,
        BinaryOp::Ltu,
        signed_cast(c, l),
        signed_cast(c, r),
    ));
    assert(binary_text(c, BinaryOp::Ge, l, r) =~= binary_text(
        c,
        BinaryOp::Geu,
        signed_cast(c, l),
        signed_cast(c, r),
    ));
    assert(binary_text(c, BinaryOp::Lt, l, r).len() != binary_text(c, BinaryOp::Ltu, l, r).len());
    assert(binary_text(c, BinaryOp::Ge, l, r).len() != binary_text(c, BinaryOp::Geu, l, r).len());
}

/// Whether the C relational or equality operator `sym` (with its spaces)
/// holds between two values, as C defines it on integers of one type.
pub open spec fn c_relation_holds(sym: Seq<char>, x: int, y: int) -> bool {
    if sym == " == "@ {
        x == y
    } else if sym == " != "@ {
        x != y
    } else if sym == " < "@ {
        x < y
    } else if sym == " >= "@ {
        x >= y
    } else if sym == " > "@ {
        x > y
    } else if sym == " <= "@ {
        x <= y
    } else {
        false
    }
}

/// Half the range of the emitter's registers: 2^63 on RV64, 2^31 on RV32.
pub open spec fn half_range(c: CEmitter) -> int {
    if rv64(c) {
        0x8000_0000_0000_0000
    } else {
        0x8000_0000
    }
}

/// The comparison `op` renders as the operator `sym` between its operands,
/// cast to the signed register type for the signed comparisons.
pub open spec fn renders_with(c: CEmitter, op: BinaryOp, l: Seq<char>, r: Seq<char>, sym: Seq<char>) -> bool {
    binary_text(c, op, l, r) == if op == BinaryOp::Lt || op == BinaryOp::Ge {
        signed_cast(c, l) + sym + signed_cast(c, r)
    } else {
        l + sym + r
    }
}

/// A comparison renders as one C relational or equality operator between
/// its operands (cast to the signed register type for LT and GE), and that
/// operator holds on the values C then compares (the register values, or
/// their two's-complement readings when cast) exactly when the RISC-V
/// comparison holds on the register values.
pub proof fn law_c_comparison_semantics(c: CEmitter, op: BinaryOp, l: Seq<char>, r: Seq<char>)
    requires
        op == BinaryOp::Eq || op == BinaryOp::Ne || op == BinaryOp::Lt || op == BinaryOp::Ge || op
            == BinaryOp::Ltu || op == BinaryOp::Geu,
    ensures
        exists|sym: Seq<char>|
            {
                let signed = op == BinaryOp::Lt || op == BinaryOp::Ge;
                &&& #[trigger] renders_with(c, op, l, r, sym)
                &&& forall|a: int, b: int|
                    0 <= a < 2 * half_range(c) && 0 <= b < 2 * half_range(c) ==> c_relation_holds(
                        sym,
                        if signed {
                            signed_in(a, half_range(c))
                        } else {
                            a
                        },
                        if signed {
                            signed_in(b, half_range(c))
                        } else {
                            b
                        },
                    ) == #[trigger] riscv_compare_holds(op, a, b, half_range(c))
            },
{
    reveal_strlit(" == ");
    reveal_strlit(" != ");
    reveal_strlit(" < ");
    reveal_strlit(" >= ");
    reveal_strlit(" > ");
    reveal_strlit(" <= ");
    reveal_strlit("(");
    reveal_strlit(")");
    reveal_strlit(" < (");
    reveal_strlit(" >= (");
    assert(" == "@[1] == '=' && " == "@[2] == '=');
    assert(" != "@[1] == '!' && " != "@[2] == '=');
    assert(" < "@[1] == '<' && " < "@[2] == ' ');
    assert(" >= "@[1] == '>' && " >= "@[2] == '=');
    assert(" > "@[1] == '>' && " > "@[2] == ' ');
    assert(" <= "@[1] == '<' && " <= "@[2] == '=');
    let sym = if op == BinaryOp::Eq {
        " == "@
    } else if op == BinaryOp::Ne {
        " != "@
    } else if op == BinaryOp::Lt || op == BinaryOp::Ltu {
        " < "@
    } else {
        " >= "@
    };
    let signed = op == BinaryOp::Lt || op == BinaryOp::Ge;
    assert(binary_text(c, op, l, r) =~= if signed {
        signed_cast(c, l) + sym + signed_cast(c, r)
    } else {
        l + sym + r
    });
    assert(renders_with(c, op, l, r, sym));
}

/// A rendered operand cast to `uint32_t`, keeping its low 32 bits.
pub open spec fn low_word(x: Seq<char>) -> Seq<char> {
    "(uint32_t)"@ + x
}

/// The RV64 word operations render as the full-width operation on the low
/// 32 bits of their operands, whose 32-bit result is sign-extended back to
/// 64 bits: ADDW, SUBW and MULW apply ADD, SUB and MUL to the operands cut to
/// 32 bits, SLLW and SRLW shift the left operand cut to 32 bits, and SRAW
/// shifts it read as a signed 32-bit value.
pub proof fn law_c_word_ops(c: CEmitter, l: Seq<char>, r: Seq<char>)
    ensures
        binary_text(c, BinaryOp::AddW, l, r) == "((uint64_t)(int64_t)(int32_t)"@ + binary_text(
            c,
            BinaryOp::Add,
            low_word(l),
            low_word(r),
        ) + ")"@,
        binary_text(c, BinaryOp::SubW, l, r) == "((uint64_t)(int64_t)(int32_t)"@ + binary_text(
            c,
            BinaryOp::Sub,
            low_word(l),
            low_word(r),
        ) + ")"@,
        binary_text(c, BinaryOp::MulW, l, r) == "((uint64_t)(int64_t)(int32_t)"@ + binary_text(
            c,
            BinaryOp::Mul,
            low_word(l),
            low_word(r),
        ) + ")"@,
        binary_text(c, BinaryOp::SllW, l, r) == "((uint64_t)(int64_t)(int32_t)"@ + binary_text(
            c,
            BinaryOp::Sll,
            low_word(l),
            r,
        ) + ")"@,
        binary_text(c, BinaryOp::SrlW, l, r) == "((uint64_t)(int64_t)(int32_t)"@ + binary_text(
            c,
            BinaryOp::Srl,
            low_word(l),
            r,
        ) + ")"@,
        binary_text(c, BinaryOp::SraW, l, r) == "((uint64_t)(int64_t)"@ + binary_text(
            c,
            BinaryOp::Srl,
            "(int32_t)"@ + l,
            r,
        ) + ")"@,
{
    reveal_strlit("((uint64_t)(int64_t)(int32_t)");
    reveal_strlit("((uint64_t)(int64_t)(int32_t)((uint32_t)");
    reveal_strlit("((uint64_t)(int64_t)((int32_t)");
    reveal_strlit("((uint64_t)(int64_t)");
    reveal_strlit("(uint32_t)");
    reveal_strlit("(int32_t)");
    reveal_strlit(" + (uint32_t)");
    reveal_strlit(" - (uint32_t)");
    reveal_strlit(" * (uint32_t)");
    reveal_strlit(" + ");
    reveal_strlit(" - ");
    reveal_strlit(" * ");
    reveal_strlit(" << ");
    reveal_strlit(" >> ");
    reveal_strlit("(");
    reveal_strlit(")");
    reveal_strlit("))");
    assert(binary_text(c, BinaryOp::AddW, l, r) =~= "((uint64_t)(int64_t)(int32_t)"@ + binary_text(
        c,
        BinaryOp::Add,
        low_word(l),
        low_word(r),
    ) + ")"@);
    assert(binary_text(c, BinaryOp::SubW, l, r) =~= "((uint64_t)(int64_t)(int32_t)"@ + binary_text(
        c,
        BinaryOp::Sub,
        low_word(l),
        low_word(r),
    ) + ")"@);
    assert(binary_text(c, BinaryOp::MulW, l, r) =~= "((uint64_t)(int64_t)(int32_t)"@ + binary_text(
        c,
        BinaryOp::Mul,
        low_word(l),
        low_word(r),
    ) + ")"@);
    assert(binary_text(c, BinaryOp::SllW, l, r) =~= "((uint64_t)(int64_t)(int32_t)"@ + binary_text(
        c,
        BinaryOp::Sll,
        low_word(l),
        r,
    ) + ")"@);
    assert(binary_text(c, BinaryOp::SrlW, l, r) =~= "((uint64_t)(int64_t)(int32_t)"@ + binary_text(
        c,
        BinaryOp::Srl,
        low_word(l),
        r,
    ) + ")"@);
    assert(binary_text(c, BinaryOp::SraW, l, r) =~= "((uint64_t)(int64_t)"@ + binary_text(
        c,
        BinaryOp::Srl,
        "(int32_t)"@ + l,
        r,
    ) + ")"@);
}

} // verus!
