//! The tohost check of the ARM64 backend (the HTIF protocol of the
//! riscv-tests): a store of an odd value to the tohost address ends the
//! program with the value shifted right by one as its exit code.

use vstd::prelude::*;

use super::expr::{fx, gen, label_gen, label_line, put, Gen};
use super::emitter::load_imm_text;
use super::{line, mem_op, Arm64Emitter};
use crate::htif::TOHOST_ADDR;
use crate::registers::STATE_PTR;
use crate::text::{push_str, string_of};

verus! {

/// The tohost check, with the guest address in `x0` and the value in `x1`:
/// two fresh labels, the exit path, and both labels after it.
pub open spec fn htif_gen(f: Arm64Emitter, g: Gen) -> Gen {
    let (g1, not_tohost) = label_gen(g, "not_tohost"@);
    let g2 = put(
        g1,
        load_imm_text("x2"@, TOHOST_ADDR) + line("cmp x0, x2"@) + line("b.ne "@ + not_tohost),
    );
    let (g3, not_exit) = label_gen(g2, "not_exit"@);
    put(
        g3,
        line("tst x1, #1"@) + line("b.eq "@ + not_exit) + line("lsr x2, x1, #1"@) + line(
            "mov w0, #1"@,
        ) + line(mem_op("strb"@, "w0"@, STATE_PTR@, f.layout.offset_has_exited as int)) + line(
            mem_op("strb"@, "w2"@, STATE_PTR@, f.layout.offset_exit_code as int),
        ) + line("b asm_exit"@) + label_line(not_exit) + label_line(not_tohost),
    )
}

impl Arm64Emitter {
    /// Check a store for the tohost address (address in `x0`, value in
    /// `x1`): an odd value sets `has_exited` and the exit code and leaves
    /// through `asm_exit`; anything else falls through to the store.
    pub fn emit_htif_check(&mut self)
        requires
            old(self).label_counter + 2 <= usize::MAX,
        ensures
            old(self).fixed(*final(self)),
            gen(*final(self)) == htif_gen(fx(*old(self)), gen(*old(self))),
    {
        let ghost g0 = gen(*self);
        proof {
            reveal_strlit("x2");
        }
        let not_tohost = self.next_label("not_tohost");
        let ghost a = self.out@;
        self.load_imm("x2", TOHOST_ADDR);
        self.emit("cmp x0, x2");
        let mut l = string_of("b.ne ");
        push_str(&mut l, not_tohost.as_str());
        self.emit(l.as_str());
        assert(self.out@ =~= a + (load_imm_text("x2"@, TOHOST_ADDR) + line("cmp x0, x2"@) + line(
            "b.ne "@ + not_tohost@,
        )));
        let not_exit = self.next_label("not_exit");
        let ghost b = self.out@;
        self.emit("tst x1, #1");
        let mut l2 = string_of("b.eq ");
        push_str(&mut l2, not_exit.as_str());
        self.emit(l2.as_str());
        self.emit("lsr x2, x1, #1");
        self.emit("mov w0, #1");
        let has_exited = self.layout.offset_has_exited;
        let exit_code = self.layout.offset_exit_code;
        self.emit_mem_op("strb", "w0", STATE_PTR, has_exited);
        self.emit_mem_op("strb", "w2", STATE_PTR, exit_code);
        self.emit("b asm_exit");
        self.emit_label(not_exit.as_str());
        self.emit_label(not_tohost.as_str());
        assert(self.out@ =~= b + (line("tst x1, #1"@) + line("b.eq "@ + not_exit@) + line(
            "lsr x2, x1, #1"@,
        ) + line("mov w0, #1"@) + line(mem_op("strb"@, "w0"@, STATE_PTR@, has_exited as int))
            + line(mem_op("strb"@, "w2"@, STATE_PTR@, exit_code as int)) + line("b asm_exit"@)
            + label_line(not_exit@) + label_line(not_tohost@)));
    }
}

} // verus!
