//! ARM64 assembly backend: the emitter state and its text-emission
//! primitives. Hot RISC-V registers live in ARM64 registers, cold ones in the
//! guest state struct addressed through the state pointer.

use vstd::prelude::*;

use crate::config::{EmitConfig, InstretMode, Xlen};
use crate::inputs::EmitInputs;
use crate::layout::{layout_of, RvStateLayout};
use crate::registers::RegMap;
use crate::text::{decimal, hex, push_decimal, push_hex, push_str};

mod branch;
mod dispatch;
mod emitter;
mod expr;
mod htif;
mod lower;
mod prologue;
mod stmt;
mod terminator;

verus! {

/// ARM64 assembly emitter.
pub struct Arm64Emitter {
    /// Assembly text emitted so far.
    pub out: String,
    /// Code generation configuration.
    pub config: EmitConfig,
    /// Where each hot RISC-V register lives.
    pub reg_map: RegMap,
    /// Layout of the guest state struct.
    pub layout: RvStateLayout,
    /// Program facts (code range, block addresses).
    pub inputs: EmitInputs,
    /// Counter for unique local labels.
    pub label_counter: usize,
    /// Cold RISC-V register currently held in the cold-cache register.
    pub cold_cache: Option<u8>,
    /// Number of spill slots in use.
    pub spill_depth: usize,
    /// Guest address mask: the low `memory_bits` bits set.
    pub memory_mask: u64,
}

/// An indented assembly line.
#[verifier::opaque]
pub open spec fn line(l: Seq<char>) -> Seq<char> {
    "    "@ + l + "\n"@
}

/// `op reg, [base, #off]`.
#[verifier::opaque]
pub open spec fn mem_op(op: Seq<char>, reg: Seq<char>, base: Seq<char>, off: int) -> Seq<char> {
    op + " "@ + reg + ", ["@ + base + ", #"@ + decimal(off as nat) + "]"@
}

/// The local label with a prefix and a counter value.
pub open spec fn label_name(prefix: Seq<char>, n: int) -> Seq<char> {
    ".L"@ + prefix + "_"@ + decimal(n as nat)
}

/// The text `op reg, [base, #off]`.
pub fn mem_op_text(op: &str, reg: &str, base: &str, off: usize) -> (r: String)
    ensures
        r@ == mem_op(op@, reg@, base@, off as int),
{
    let mut s = String::new();
    push_str(&mut s, op);
    push_str(&mut s, " ");
    push_str(&mut s, reg);
    push_str(&mut s, ", [");
    push_str(&mut s, base);
    push_str(&mut s, ", #");
    push_decimal(&mut s, off as u64);
    push_str(&mut s, "]");
    reveal(mem_op);
    s
}

impl Arm64Emitter {
    /// Fields that no emission changes.
    pub open spec fn fixed(self, other: Self) -> bool {
        &&& other.config == self.config
        &&& other.reg_map == self.reg_map
        &&& other.layout == self.layout
        &&& other.inputs == self.inputs
        &&& other.memory_mask == self.memory_mask
    }

    /// Everything but the text is unchanged.
    pub open spec fn keeps(self, other: Self) -> bool {
        &&& self.fixed(other)
        &&& other.label_counter == self.label_counter
        &&& other.cold_cache == self.cold_cache
        &&& other.spill_depth == self.spill_depth
    }

    /// The state layout agrees with the configuration.
    pub open spec fn wf(self) -> bool {
        &&& self.layout.wf()
        &&& self.layout.reg_bytes == self.config.xlen.bits() / 8
        &&& self.layout.offset_tracer + 128 <= usize::MAX
        &&& self.reg_map.narrow() == self.is_rv32()
    }

    /// Whether the guest registers are 32 bits wide.
    pub open spec fn is_rv32(self) -> bool {
        self.config.xlen == Xlen::Rv32
    }

    /// A fresh emitter for a configuration and the program's inputs.
    pub fn new(config: EmitConfig, inputs: EmitInputs) -> (r: Self)
        requires
            config.memory_bits < 64,
            config.num_regs * 8 + 256 <= usize::MAX,
        ensures
            r.wf(),
            r.out@ == Seq::<char>::empty(),
            r.config == config,
            r.inputs == inputs,
            r.reg_map.hot_list() == config.hot_regs@,
            r.reg_map.narrow() == (config.xlen == Xlen::Rv32),
            r.layout.num_regs == config.num_regs,
            r.layout.instret_suspend == (config.instret_mode == InstretMode::Suspend
                || config.instret_mode == InstretMode::PerInstruction),
            r.label_counter == 0,
            r.cold_cache.is_none(),
            r.spill_depth == 0,
            r.memory_mask == !(0xFFFF_FFFF_FFFF_FFFFu64 << config.memory_bits),
    {
        let is_rv32 = match config.xlen {
            Xlen::Rv32 => true,
            Xlen::Rv64 => false,
        };
        let reg_map = RegMap::new(config.hot_regs.as_slice(), is_rv32);
        let reg_bytes = config.xlen.reg_bytes();
        let num_regs = config.num_regs;
        assert(num_regs * reg_bytes <= num_regs * 8) by (nonlinear_arith)
            requires
                reg_bytes <= 8,
        ;
        let layout = RvStateLayout::from_params(
            reg_bytes,
            config.num_regs,
            config.instret_mode.suspends(),
        );
        let memory_mask = !(0xFFFF_FFFF_FFFF_FFFFu64 << config.memory_bits);
        Arm64Emitter {
            out: String::new(),
            config,
            reg_map,
            layout,
            inputs,
            label_counter: 0,
            cold_cache: None,
            spill_depth: 0,
            memory_mask,
        }
    }

    /// Generate a unique label.
    pub fn next_label(&mut self, prefix: &str) -> (r: String)
        requires
            old(self).label_counter < usize::MAX,
        ensures
            final(self).label_counter == old(self).label_counter + 1,
            r@ == label_name(prefix@, final(self).label_counter as int),
            final(self).out@ == old(self).out@,
            old(self).fixed(*final(self)),
            final(self).cold_cache == old(self).cold_cache,
            final(self).spill_depth == old(self).spill_depth,
    {
        self.label_counter = self.label_counter + 1;
        let mut s = String::new();
        push_str(&mut s, ".L");
        push_str(&mut s, prefix);
        push_str(&mut s, "_");
        push_decimal(&mut s, self.label_counter as u64);
        s
    }

    /// Emit an assembly line with indentation.
    pub fn emit(&mut self, l: &str)
        ensures
            final(self).out@ == old(self).out@ + line(l@),
            old(self).keeps(*final(self)),
    {
        let ghost start = self.out@;
        push_str(&mut self.out, "    ");
        push_str(&mut self.out, l);
        push_str(&mut self.out, "\n");
        reveal(line);
        assert(self.out@ =~= start + line(l@));
    }

    /// Emit a label.
    pub fn emit_label(&mut self, name: &str)
        ensures
            final(self).out@ == old(self).out@ + name@ + ":\n"@,
            old(self).keeps(*final(self)),
    {
        push_str(&mut self.out, name);
        push_str(&mut self.out, ":\n");
    }

    /// Emit the label of a guest PC. Labels are entry points, so the cold
    /// cache is cleared.
    pub fn emit_pc_label(&mut self, pc: u64)
        ensures
            final(self).out@ == old(self).out@ + "asm_pc_"@ + hex(pc as nat) + ":\n"@,
            old(self).fixed(*final(self)),
            final(self).label_counter == old(self).label_counter,
            final(self).spill_depth == old(self).spill_depth,
            final(self).cold_cache.is_none(),
    {
        self.cold_cache = None;
        push_str(&mut self.out, "asm_pc_");
        push_hex(&mut self.out, pc);
        push_str(&mut self.out, ":\n");
    }

    /// Emit a raw line (no indentation).
    pub fn emit_raw(&mut self, l: &str)
        ensures
            final(self).out@ == old(self).out@ + l@ + "\n"@,
            old(self).keeps(*final(self)),
    {
        push_str(&mut self.out, l);
        push_str(&mut self.out, "\n");
    }

    /// Emit a comment.
    pub fn emit_comment(&mut self, comment: &str)
        ensures
            final(self).out@ == old(self).out@ + "    // "@ + comment@ + "\n"@,
            old(self).keeps(*final(self)),
    {
        push_str(&mut self.out, "    // ");
        push_str(&mut self.out, comment);
        push_str(&mut self.out, "\n");
    }

    /// Emit an empty line.
    pub fn emit_blank(&mut self)
        ensures
            final(self).out@ == old(self).out@ + "\n"@,
            old(self).keeps(*final(self)),
    {
        push_str(&mut self.out, "\n");
    }

    /// Emit `op reg, [base, #off]` as an indented line.
    pub fn emit_mem_op(&mut self, op: &str, reg: &str, base: &str, off: usize)
        ensures
            final(self).out@ == old(self).out@ + line(mem_op(op@, reg@, base@, off as int)),
            old(self).keeps(*final(self)),
    {
        let text = mem_op_text(op, reg, base, off);
        self.emit(text.as_str());
    }
}

} // verus!
