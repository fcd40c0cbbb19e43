//! Jump table and dispatch of the ARM64 backend: each 2-byte code slot has a
//! 32-bit entry holding the offset of its block's label from the table.

use vstd::prelude::*;

use super::emitter::load_imm_text;
use super::{line, mem_op, Arm64Emitter};
use crate::registers::STATE_PTR;
use crate::text::{hex, push_hex, push_str};

verus! {

broadcast use vstd::std_specs::hash::group_hash_axioms;

/// Text that jumps through the table to the guest address in `x0`.
pub open spec fn dispatch_jump_text(x: Seq<char>, rv32: bool, text_start: u64) -> Seq<char> {
    let y = x + line("adrp x1, jump_table"@) + line("add x1, x1, :lo12:jump_table"@);
    let z = if rv32 {
        y + load_imm_text("w2"@, text_start) + line("sub w0, w0, w2"@) + line("lsr w0, w0, #1"@)
    } else {
        y + load_imm_text("x2"@, text_start) + line("sub x0, x0, x2"@) + line("lsr x0, x0, #1"@)
    };
    z + line("ldr w0, [x1, w0, uxtw #2]"@) + line("add x0, x1, w0, sxtw"@) + line("br x0"@)
}

/// Jump table entry for the slot at `addr`: the block label starting there,
/// else that of the merged block that absorbed it, else the trap handler.
pub open spec fn jump_table_entry(valid: Set<u64>, absorbed: Map<u64, u64>, addr: u64) -> Seq<char> {
    if valid.contains(addr) {
        line(".word asm_pc_"@ + hex(addr as nat) + " - jump_table"@)
    } else if absorbed.contains_key(addr) {
        line(".word asm_pc_"@ + hex(absorbed[addr] as nat) + " - jump_table"@)
    } else {
        line(".word asm_trap - jump_table"@)
    }
}

/// Entries for the slots `addr, addr + 2, ...` below `end`.
pub open spec fn jump_table_entries(valid: Set<u64>, absorbed: Map<u64, u64>, addr: int, end: int) -> Seq<
    char,
>
    decreases end - addr + 1,
{
    if 0 <= addr < end && addr <= u64::MAX {
        jump_table_entry(valid, absorbed, addr as u64) + jump_table_entries(
            valid,
            absorbed,
            addr + 2,
            end,
        )
    } else {
        seq![]
    }
}

impl Arm64Emitter {
    /// Jump via the dispatch table to the guest address in `x0`.
    pub fn emit_dispatch_jump(&mut self)
        requires
            old(self).is_rv32() ==> old(self).inputs.text_start <= 0xFFFF_FFFFu64,
        ensures
            final(self).out@ == dispatch_jump_text(
                old(self).out@,
                old(self).is_rv32(),
                old(self).inputs.text_start,
            ),
            old(self).keeps(*final(self)),
    {
        self.emit("adrp x1, jump_table");
        self.emit("add x1, x1, :lo12:jump_table");
        let text_start = self.inputs.text_start;
        let rv32 = match self.config.xlen {
            crate::config::Xlen::Rv32 => true,
            crate::config::Xlen::Rv64 => false,
        };
        proof {
            reveal_strlit("w2");
            reveal_strlit("x2");
        }
        if rv32 {
            self.load_imm("w2", text_start);
            self.emit("sub w0, w0, w2");
            self.emit("lsr w0, w0, #1");
        } else {
            self.load_imm("x2", text_start);
            self.emit("sub x0, x0, x2");
            self.emit("lsr x0, x0, #1");
        }
        self.emit("ldr w0, [x1, w0, uxtw #2]");
        self.emit("add x0, x1, w0, sxtw");
        self.emit("br x0");
    }

    /// Load the guest pc from state into `x0` (`w0` for RV32) for dispatch.
    pub fn emit_load_pc_for_dispatch(&mut self)
        ensures
            final(self).out@ == old(self).out@ + line(
                mem_op(
                    "ldr"@,
                    if old(self).is_rv32() {
                        "w0"@
                    } else {
                        "x0"@
                    },
                    STATE_PTR@,
                    old(self).layout.offset_pc as int,
                ),
            ),
            old(self).keeps(*final(self)),
    {
        let pc_offset = self.layout.offset_pc;
        match self.config.xlen {
            crate::config::Xlen::Rv32 => self.emit_mem_op("ldr", "w0", STATE_PTR, pc_offset),
            crate::config::Xlen::Rv64 => self.emit_mem_op("ldr", "x0", STATE_PTR, pc_offset),
        }
    }

    /// Emit one jump table entry pointing at the label of `target`.
    fn emit_jump_table_word(&mut self, target: u64)
        ensures
            final(self).out@ == old(self).out@ + line(
                ".word asm_pc_"@ + hex(target as nat) + " - jump_table"@,
            ),
            old(self).keeps(*final(self)),
    {
        let mut l = String::new();
        push_str(&mut l, ".word asm_pc_");
        push_hex(&mut l, target);
        push_str(&mut l, " - jump_table");
        self.emit(l.as_str());
    }

    /// Emit the jump table in the `.rodata` section: one entry per 2-byte
    /// slot from the text start up to the end of code.
    pub fn emit_jump_table(&mut self)
        requires
            old(self).inputs.pc_end < u64::MAX || old(self).inputs.text_start % 2 == 1,
        ensures
            final(self).out@ == old(self).out@ + ".section .rodata"@ + "\n"@ + ".balign 4"@ + "\n"@
                + "jump_table"@ + ":\n"@ + jump_table_entries(
                old(self).inputs.valid_addresses@,
                old(self).inputs.absorbed_to_merged@,
                old(self).inputs.text_start as int,
                old(self).inputs.pc_end as int,
            ) + "\n"@,
            old(self).keeps(*final(self)),
    {
        self.emit_raw(".section .rodata");
        self.emit_raw(".balign 4");
        self.emit_label("jump_table");
        let ghost valid = self.inputs.valid_addresses@;
        let ghost absorbed = self.inputs.absorbed_to_merged@;
        let ghost end = self.inputs.pc_end as int;
        let ghost goal = self.out@ + jump_table_entries(valid, absorbed, self.inputs.text_start as int, end);
        let ghost before = *self;
        let mut pc = self.inputs.text_start;
        while pc < self.inputs.pc_end
            invariant
                before.keeps(*self),
                self.inputs.pc_end < u64::MAX || self.inputs.text_start % 2 == 1,
                pc % 2 == self.inputs.text_start % 2,
                valid == self.inputs.valid_addresses@,
                absorbed == self.inputs.absorbed_to_merged@,
                end == self.inputs.pc_end as int,
                self.out@ + jump_table_entries(valid, absorbed, pc as int, end) == goal,
            decreases self.inputs.pc_end + 2 - pc,
        {
            let ghost prev = self.out@;
            if self.inputs.valid_addresses.contains(&pc) {
                self.emit_jump_table_word(pc);
            } else {
                match self.inputs.absorbed_to_merged.get(&pc) {
                    Some(merged) => {
                        let m = *merged;
                        self.emit_jump_table_word(m);
                    },
                    None => {
                        self.emit(".word asm_trap - jump_table");
                    },
                }
            }
            assert(self.out@ == prev + jump_table_entry(valid, absorbed, pc));
            assert(prev + jump_table_entries(valid, absorbed, pc as int, end) =~= self.out@
                + jump_table_entries(valid, absorbed, pc + 2, end));
            pc = pc + 2;
        }
        assert(jump_table_entries(valid, absorbed, pc as int, end) =~= Seq::<char>::empty());
        self.emit_blank();
    }
}

} // verus!
