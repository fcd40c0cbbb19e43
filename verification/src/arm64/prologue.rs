//! Assembly structure of the ARM64 backend: file header, text section,
//! prologue and epilogue of `asm_run`, and the `rv_execute_from` wrapper.

use vstd::prelude::*;

use super::dispatch::dispatch_jump_text;
use super::emitter::{hot_lines, is_w_reg, load_imm_text, TEMP_STACK_BYTES};
use super::{line, mem_op, Arm64Emitter};
use crate::config::FixedAddressConfig;
use crate::layout::RvStateLayout;
use crate::registers::{hot_pairs, MEMORY_PTR, STATE_PTR};
use crate::text::{decimal, hex, push_decimal, push_hex, push_str};

verus! {

/// Saves of the frame pointer, link register and the registers used for
/// guest registers, on entry to `asm_run`.
pub const PROLOGUE_SAVES: &'static str = "    stp x29, x30, [sp, #-16]!
    stp x19, x20, [sp, #-16]!
    stp x21, x22, [sp, #-16]!
    stp x23, x24, [sp, #-16]!
    stp x25, x26, [sp, #-16]!
    stp x27, x28, [sp, #-16]!
    stp x3, x4, [sp, #-16]!
    stp x5, x6, [sp, #-16]!
    stp x7, x8, [sp, #-16]!
    stp x9, x10, [sp, #-16]!
    stp x11, x12, [sp, #-16]!
    stp x13, x14, [sp, #-16]!
    stp x15, x16, [sp, #-16]!
    stp x17, x18, [sp, #-16]!
";

/// Restores of the saved registers in reverse order, and the return.
pub const EPILOGUE_RESTORES: &'static str = "    ldp x17, x18, [sp], #16
    ldp x15, x16, [sp], #16
    ldp x13, x14, [sp], #16
    ldp x11, x12, [sp], #16
    ldp x9, x10, [sp], #16
    ldp x7, x8, [sp], #16
    ldp x5, x6, [sp], #16
    ldp x3, x4, [sp], #16
    ldp x27, x28, [sp], #16
    ldp x25, x26, [sp], #16
    ldp x23, x24, [sp], #16
    ldp x21, x22, [sp], #16
    ldp x19, x20, [sp], #16
    ldp x29, x30, [sp], #16
    ret
";

/// An indented comment line.
pub open spec fn comment(c: Seq<char>) -> Seq<char> {
    "    // "@ + c + "\n"@
}

/// `.set name, value` as an indented line.
pub open spec fn set_line(name: Seq<char>, value: int) -> Seq<char> {
    line(".set "@ + name + ", "@ + decimal(value as nat))
}

/// `x` followed by the assembly file header: architecture, the state offsets
/// as constants, and the fixed addresses when configured.
pub open spec fn header_text(x: Seq<char>, layout: RvStateLayout, fixed: Option<FixedAddressConfig>) -> Seq<
    char,
> {
    let y = x + ".arch armv8-a"@ + "\n"@ + "\n"@ + "// Constants"@ + "\n"@ + set_line(
        "PC_OFFSET"@,
        layout.offset_pc as int,
    ) + set_line("INSTRET_OFFSET"@, layout.offset_instret as int) + set_line(
        "TARGET_INSTRET_OFFSET"@,
        layout.offset_target_instret as int,
    ) + set_line("HAS_EXITED_OFFSET"@, layout.offset_has_exited as int) + set_line(
        "EXIT_CODE_OFFSET"@,
        layout.offset_exit_code as int,
    ) + set_line("MEMORY_OFFSET"@, layout.offset_memory as int);
    let z = match fixed {
        Some(f) => y + line(".set RV_STATE_ADDR, 0x"@ + hex(f.state_addr as nat)) + line(
            ".set RV_MEMORY_ADDR, 0x"@ + hex(f.memory_addr as nat),
        ),
        None => y,
    };
    z + "\n"@
}

/// `x` followed by the start of the prologue: the `asm_run` label, register
/// saves and the temp stack reservation.
pub open spec fn prologue_saves_text(x: Seq<char>) -> Seq<char> {
    x + "asm_run"@ + ":\n"@ + comment("Save callee-saved registers"@) + PROLOGUE_SAVES@ + line(
        "sub sp, sp, #"@ + decimal(TEMP_STACK_BYTES as nat),
    ) + "\n"@ + comment("Setup pointers"@)
}

/// `x` followed by the setup of the state and memory pointers.
pub open spec fn pointer_setup_text(x: Seq<char>, fixed: Option<FixedAddressConfig>) -> Seq<char> {
    match fixed {
        Some(f) => x + comment("Fixed address mode"@) + load_imm_text("x19"@, f.state_addr)
            + load_imm_text("x20"@, f.memory_addr),
        None => x + line("mov "@ + STATE_PTR@ + ", x0"@) + line("mov "@ + MEMORY_PTR@ + ", x1"@),
    }
}

/// `x` followed by the loads of the hot registers and the dispatch to the
/// pc held in state.
pub open spec fn prologue_dispatch_text(
    x: Seq<char>,
    layout: RvStateLayout,
    pairs: Seq<(u8, &'static str)>,
    rv32: bool,
    text_start: u64,
) -> Seq<char> {
    let w = x + "\n"@ + comment("Load hot registers from state"@) + hot_lines("ldr"@, pairs, layout)
        + "\n"@ + comment("Jump to starting PC via dispatch table"@) + line(
        mem_op(
            "ldr"@,
            if rv32 {
                "w0"@
            } else {
                "x0"@
            },
            STATE_PTR@,
            layout.offset_pc as int,
        ),
    );
    dispatch_jump_text(w, rv32, text_start) + "\n"@
}

/// `x` followed by the prologue of `asm_run`: save registers, reserve the
/// temp stack, set up the state and memory pointers, load the hot registers
/// and dispatch to the pc in state.
pub open spec fn prologue_text(
    x: Seq<char>,
    layout: RvStateLayout,
    fixed: Option<FixedAddressConfig>,
    pairs: Seq<(u8, &'static str)>,
    rv32: bool,
    text_start: u64,
) -> Seq<char> {
    prologue_dispatch_text(
        pointer_setup_text(prologue_saves_text(x), fixed),
        layout,
        pairs,
        rv32,
        text_start,
    )
}

/// `x` followed by `asm_exit`, which saves the hot registers and restores
/// the saved registers.
pub open spec fn exit_text(x: Seq<char>, layout: RvStateLayout, pairs: Seq<(u8, &'static str)>) -> Seq<
    char,
> {
    x + "asm_exit"@ + ":\n"@ + comment("Save hot registers back to state"@) + hot_lines(
        "str"@,
        pairs,
        layout,
    ) + "\n"@ + comment("Restore callee-saved registers"@) + line(
        "add sp, sp, #"@ + decimal(TEMP_STACK_BYTES as nat),
    ) + EPILOGUE_RESTORES@ + "\n"@
}

/// `x` followed by `asm_trap`, which sets the exit flag and code and exits.
pub open spec fn trap_text(x: Seq<char>, layout: RvStateLayout) -> Seq<char> {
    x + "asm_trap"@ + ":\n"@ + comment("Trap handler - set exit flag and exit"@) + line(
        "mov w0, #1"@,
    ) + line(mem_op("strb"@, "w0"@, STATE_PTR@, layout.offset_has_exited as int)) + line(
        mem_op("strb"@, "w0"@, STATE_PTR@, layout.offset_exit_code as int),
    ) + line("b asm_exit"@) + "\n"@
}

/// `x` followed by the epilogue: `asm_exit` and the trap handler.
pub open spec fn epilogue_text(x: Seq<char>, layout: RvStateLayout, pairs: Seq<(u8, &'static str)>) -> Seq<
    char,
> {
    trap_text(exit_text(x, layout, pairs), layout)
}

/// `x` followed by `rv_execute_from(state, start_pc)`: store the pc, load the
/// memory pointer (unless fixed), call `asm_run` and return `has_exited`.
pub open spec fn runtime_wrapper_text(x: Seq<char>, layout: RvStateLayout, fixed: bool, rv32: bool) -> Seq<
    char,
> {
    let y = x + ".global rv_execute_from"@ + "\n"@ + ".type rv_execute_from, %function"@ + "\n"@
        + "rv_execute_from"@ + ":\n"@ + comment("rv_execute_from(RvState* state, uint64_t start_pc)"@)
        + comment("  x0 = state, x1 = start_pc"@) + "\n"@ + line("stp x29, x30, [sp, #-16]!"@) + line(
        "mov x29, sp"@,
    ) + line("str x0, [sp, #-16]!"@) + line(
        mem_op(
            "str"@,
            if rv32 {
                "w1"@
            } else {
                "x1"@
            },
            "x0"@,
            layout.offset_pc as int,
        ),
    );
    let z = if fixed {
        y
    } else {
        y + comment("Load memory pointer from state"@) + line(
            mem_op("ldr"@, "x1"@, "x0"@, layout.offset_memory as int),
        )
    };
    z + line("bl asm_run"@) + line("ldr x0, [sp], #16"@) + line(
        mem_op("ldrb"@, "w0"@, "x0"@, layout.offset_has_exited as int),
    ) + line("ldp x29, x30, [sp], #16"@) + line("ret"@) + "\n"@
}

impl Arm64Emitter {
    /// Emit `.set name, value`.
    fn emit_set(&mut self, name: &str, value: usize)
        ensures
            final(self).out@ == old(self).out@ + set_line(name@, value as int),
            old(self).keeps(*final(self)),
    {
        let mut l = String::new();
        push_str(&mut l, ".set ");
        push_str(&mut l, name);
        push_str(&mut l, ", ");
        push_decimal(&mut l, value as u64);
        self.emit(l.as_str());
    }

    /// Emit `.set name, 0x<value>`.
    fn emit_set_hex(&mut self, prefix: &str, value: u64)
        ensures
            final(self).out@ == old(self).out@ + line(prefix@ + hex(value as nat)),
            old(self).keeps(*final(self)),
    {
        let mut l = String::new();
        push_str(&mut l, prefix);
        push_hex(&mut l, value);
        self.emit(l.as_str());
    }

    /// Emit the assembly file header.
    pub fn emit_header(&mut self)
        ensures
            final(self).out@ == header_text(
                old(self).out@,
                old(self).layout,
                old(self).config.fixed_addresses,
            ),
            old(self).keeps(*final(self)),
    {
        self.emit_raw(".arch armv8-a");
        self.emit_blank();
        self.emit_raw("// Constants");
        self.emit_set("PC_OFFSET", self.layout.offset_pc);
        self.emit_set("INSTRET_OFFSET", self.layout.offset_instret);
        self.emit_set("TARGET_INSTRET_OFFSET", self.layout.offset_target_instret);
        self.emit_set("HAS_EXITED_OFFSET", self.layout.offset_has_exited);
        self.emit_set("EXIT_CODE_OFFSET", self.layout.offset_exit_code);
        self.emit_set("MEMORY_OFFSET", self.layout.offset_memory);
        match self.config.fixed_addresses {
            Some(fixed) => {
                self.emit_set_hex(".set RV_STATE_ADDR, 0x", fixed.state_addr);
                self.emit_set_hex(".set RV_MEMORY_ADDR, 0x", fixed.memory_addr);
            },
            None => {},
        }
        self.emit_blank();
    }

    /// Emit the `.text` section with the `asm_run` entry point.
    pub fn emit_text_section(&mut self)
        ensures
            final(self).out@ == old(self).out@ + ".section .text"@ + "\n"@ + ".global asm_run"@
                + "\n"@ + ".type asm_run, %function"@ + "\n"@ + "\n"@,
            old(self).keeps(*final(self)),
    {
        self.emit_raw(".section .text");
        self.emit_raw(".global asm_run");
        self.emit_raw(".type asm_run, %function");
        self.emit_blank();
    }

    /// Emit the start of the prologue.
    fn emit_prologue_saves(&mut self)
        ensures
            final(self).out@ == prologue_saves_text(old(self).out@),
            old(self).keeps(*final(self)),
    {
        self.emit_label("asm_run");
        self.emit_comment("Save callee-saved registers");
        push_str(&mut self.out, PROLOGUE_SAVES);
        let mut l = String::new();
        push_str(&mut l, "sub sp, sp, #");
        push_decimal(&mut l, TEMP_STACK_BYTES as u64);
        self.emit(l.as_str());
        self.emit_blank();
        self.emit_comment("Setup pointers");
    }

    /// Emit the setup of the state and memory pointers.
    fn emit_pointer_setup(&mut self)
        ensures
            final(self).out@ == pointer_setup_text(old(self).out@, old(self).config.fixed_addresses),
            old(self).keeps(*final(self)),
    {
        match self.config.fixed_addresses {
            Some(fixed) => {
                self.emit_comment("Fixed address mode");
                proof {
                    reveal_strlit("x19");
                    reveal_strlit("x20");
                }
                self.load_imm("x19", fixed.state_addr);
                self.load_imm("x20", fixed.memory_addr);
            },
            None => {
                let mut m = String::new();
                push_str(&mut m, "mov ");
                push_str(&mut m, STATE_PTR);
                push_str(&mut m, ", x0");
                self.emit(m.as_str());
                let mut n = String::new();
                push_str(&mut n, "mov ");
                push_str(&mut n, MEMORY_PTR);
                push_str(&mut n, ", x1");
                self.emit(n.as_str());
            },
        }
    }

    /// Emit the hot register loads and the initial dispatch.
    fn emit_prologue_dispatch(&mut self)
        requires
            old(self).wf(),
            old(self).is_rv32() ==> old(self).inputs.text_start <= 0xFFFF_FFFFu64,
        ensures
            final(self).out@ == prologue_dispatch_text(
                old(self).out@,
                old(self).layout,
                hot_pairs(old(self).reg_map.hot_list(), old(self).reg_map.narrow(), 32),
                old(self).is_rv32(),
                old(self).inputs.text_start,
            ),
            old(self).keeps(*final(self)),
    {
        self.emit_blank();
        self.emit_comment("Load hot registers from state");
        self.emit_hot_lines("ldr");
        self.emit_blank();
        self.emit_comment("Jump to starting PC via dispatch table");
        self.emit_load_pc_for_dispatch();
        self.emit_dispatch_jump();
        self.emit_blank();
    }

    /// Emit the prologue of `asm_run` (arguments: `x0` = state, `x1` =
    /// memory base, unless the addresses are fixed).
    pub fn emit_prologue(&mut self)
        requires
            old(self).wf(),
            old(self).is_rv32() ==> old(self).inputs.text_start <= 0xFFFF_FFFFu64,
        ensures
            final(self).out@ == prologue_text(
                old(self).out@,
                old(self).layout,
                old(self).config.fixed_addresses,
                hot_pairs(old(self).reg_map.hot_list(), old(self).reg_map.narrow(), 32),
                old(self).is_rv32(),
                old(self).inputs.text_start,
            ),
            old(self).keeps(*final(self)),
    {
        self.emit_prologue_saves();
        self.emit_pointer_setup();
        self.emit_prologue_dispatch();
    }

    /// Emit `asm_exit`.
    fn emit_exit(&mut self)
        requires
            old(self).wf(),
        ensures
            final(self).out@ == exit_text(
                old(self).out@,
                old(self).layout,
                hot_pairs(old(self).reg_map.hot_list(), old(self).reg_map.narrow(), 32),
            ),
            old(self).keeps(*final(self)),
    {
        self.emit_label("asm_exit");
        self.emit_comment("Save hot registers back to state");
        self.emit_hot_lines("str");
        self.emit_blank();
        self.emit_comment("Restore callee-saved registers");
        let mut l = String::new();
        push_str(&mut l, "add sp, sp, #");
        push_decimal(&mut l, TEMP_STACK_BYTES as u64);
        self.emit(l.as_str());
        push_str(&mut self.out, EPILOGUE_RESTORES);
        self.emit_blank();
    }

    /// Emit `asm_trap`.
    fn emit_trap(&mut self)
        ensures
            final(self).out@ == trap_text(old(self).out@, old(self).layout),
            old(self).keeps(*final(self)),
    {
        self.emit_label("asm_trap");
        self.emit_comment("Trap handler - set exit flag and exit");
        let has_exited = self.layout.offset_has_exited;
        let exit_code = self.layout.offset_exit_code;
        self.emit("mov w0, #1");
        self.emit_mem_op("strb", "w0", STATE_PTR, has_exited);
        self.emit_mem_op("strb", "w0", STATE_PTR, exit_code);
        self.emit("b asm_exit");
        self.emit_blank();
    }

    /// Emit the epilogue (`asm_exit`) and the trap handler (`asm_trap`).
    pub fn emit_epilogue(&mut self)
        requires
            old(self).wf(),
        ensures
            final(self).out@ == epilogue_text(
                old(self).out@,
                old(self).layout,
                hot_pairs(old(self).reg_map.hot_list(), old(self).reg_map.narrow(), 32),
            ),
            old(self).keeps(*final(self)),
    {
        self.emit_exit();
        self.emit_trap();
    }

    /// Emit the `rv_execute_from` wrapper that the runner calls.
    pub fn emit_runtime_wrapper(&mut self)
        ensures
            final(self).out@ == runtime_wrapper_text(
                old(self).out@,
                old(self).layout,
                old(self).config.fixed_addresses.is_some(),
                old(self).is_rv32(),
            ),
            old(self).keeps(*final(self)),
    {
        self.emit_raw(".global rv_execute_from");
        self.emit_raw(".type rv_execute_from, %function");
        self.emit_label("rv_execute_from");
        self.emit_comment("rv_execute_from(RvState* state, uint64_t start_pc)");
        self.emit_comment("  x0 = state, x1 = start_pc");
        self.emit_blank();
        self.emit("stp x29, x30, [sp, #-16]!");
        self.emit("mov x29, sp");
        self.emit("str x0, [sp, #-16]!");
        let pc_offset = self.layout.offset_pc;
        match self.config.xlen {
            crate::config::Xlen::Rv32 => self.emit_mem_op("str", "w1", "x0", pc_offset),
            crate::config::Xlen::Rv64 => self.emit_mem_op("str", "x1", "x0", pc_offset),
        }
        if self.config.fixed_addresses.is_none() {
            let memory_offset = self.layout.offset_memory;
            self.emit_comment("Load memory pointer from state");
            self.emit_mem_op("ldr", "x1", "x0", memory_offset);
        }
        self.emit("bl asm_run");
        self.emit("ldr x0, [sp], #16");
        let has_exited_offset = self.layout.offset_has_exited;
        self.emit_mem_op("ldrb", "w0", "x0", has_exited_offset);
        self.emit("ldp x29, x30, [sp], #16");
        self.emit("ret");
        self.emit_blank();
    }
}

} // verus!
