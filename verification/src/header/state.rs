use vstd::prelude::*;

use super::{rtype_of, HeaderConfig, NUM_CSRS};
use crate::c_config::TracerKind;
use crate::config::InstretMode;
use crate::layout::{layout_of, RvStateLayout};
use crate::signature::reg_type;
use crate::text::{decimal, push_decimal, push_str, to_decimal};

verus! {

/// `x` followed by the `RvState` struct declaration (part 1 of 3).
pub open spec fn state_struct_text_1(x: Seq<char>, rtype: Seq<char>, num_regs: int, offset_regs: int, offset_pc: int, offset_instret: int, suspender_field: Seq<char>, offset_reservation_addr: int, offset_reservation_valid: int, offset_has_exited: int, offset_exit_code: int, offset_pad0: int, offset_brk: int, offset_start_brk: int, offset_memory: int, tracer_field: Seq<char>, num_csrs: int, csr_offset_comment: Seq<char>) -> Seq<char> {
    x + "/* VM State - hot fields first for cache locality */\ntypedef struct RvState {\n    /* Hot path fields (small offsets for efficient addressing) */\n    "@ + rtype + " regs["@ + decimal(num_regs as nat) + "];           /* offset "@ + decimal(offset_regs as nat) + " */\n    "@ + rtype + " pc;                         /* offset "@ + decimal(offset_pc as nat) + " */\n    uint64_t instret;                   /* offset "@ + decimal(offset_instret as nat) + " */\n"@ + suspender_field + "\n    /* Reservation for LR/SC */\n    "@ + rtype + " reservation_addr;           /* offset "@ + decimal(offset_reservation_addr as nat)
}

/// `x` followed by the `RvState` struct declaration (part 2 of 3).
pub open spec fn state_struct_text_2(x: Seq<char>, rtype: Seq<char>, num_regs: int, offset_regs: int, offset_pc: int, offset_instret: int, suspender_field: Seq<char>, offset_reservation_addr: int, offset_reservation_valid: int, offset_has_exited: int, offset_exit_code: int, offset_pad0: int, offset_brk: int, offset_start_brk: int, offset_memory: int, tracer_field: Seq<char>, num_csrs: int, csr_offset_comment: Seq<char>) -> Seq<char> {
    x + " */\n    uint8_t reservation_valid;          /* offset "@ + decimal(offset_reservation_valid as nat) + " */\n\n    /* Execution control */\n    uint8_t has_exited;                 /* offset "@ + decimal(offset_has_exited as nat) + " */\n    uint8_t exit_code;                  /* offset "@ + decimal(offset_exit_code as nat) + " */\n    uint8_t _pad0;                      /* offset "@ + decimal(offset_pad0 as nat) + " */\n\n    /* Heap management */\n    "@ + rtype + " brk;                        /* offset "@ + decimal(offset_brk as nat) + " */\n    "@ + rtype + " start_brk;                  /* offset "@ + decimal(offset_start_brk as nat) + " */\n\n    /* Cold fields (rarely accessed in hot paths) */\n    uint8_t* memory;                    /* offset "@ + decimal(offset_memory as nat)
}

/// `x` followed by the `RvState` struct declaration (part 3 of 3).
pub open spec fn state_struct_text_3(x: Seq<char>, rtype: Seq<char>, num_regs: int, offset_regs: int, offset_pc: int, offset_instret: int, suspender_field: Seq<char>, offset_reservation_addr: int, offset_reservation_valid: int, offset_has_exited: int, offset_exit_code: int, offset_pad0: int, offset_brk: int, offset_start_brk: int, offset_memory: int, tracer_field: Seq<char>, num_csrs: int, csr_offset_comment: Seq<char>) -> Seq<char> {
    x + " */\n"@ + tracer_field + "\n    /* CSRs at end (large array, rarely used) */\n    "@ + rtype + " csrs["@ + decimal(num_csrs as nat) + "];           /* offset "@ + csr_offset_comment + " */\n} RvState;\n\n"@
}

fn push_state_struct_text_1(out: &mut String, rtype: &str, num_regs: u64, offset_regs: u64, offset_pc: u64, offset_instret: u64, suspender_field: &str, offset_reservation_addr: u64, offset_reservation_valid: u64, offset_has_exited: u64, offset_exit_code: u64, offset_pad0: u64, offset_brk: u64, offset_start_brk: u64, offset_memory: u64, tracer_field: &str, num_csrs: u64, csr_offset_comment: &str)
    ensures
        final(out)@ == state_struct_text_1(old(out)@, rtype@, num_regs as int, offset_regs as int, offset_pc as int, offset_instret as int, suspender_field@, offset_reservation_addr as int, offset_reservation_valid as int, offset_has_exited as int, offset_exit_code as int, offset_pad0 as int, offset_brk as int, offset_start_brk as int, offset_memory as int, tracer_field@, num_csrs as int, csr_offset_comment@),
{
    push_str(out, "/* VM State - hot fields first for cache locality */\ntypedef struct RvState {\n    /* Hot path fields (small offsets for efficient addressing) */\n    ");
    push_str(out, rtype);
    push_str(out, " regs[");
    push_decimal(out, num_regs as u64);
    push_str(out, "];           /* offset ");
    push_decimal(out, offset_regs as u64);
    push_str(out, " */\n    ");
    push_str(out, rtype);
    push_str(out, " pc;                         /* offset ");
    push_decimal(out, offset_pc as u64);
    push_str(out, " */\n    uint64_t instret;                   /* offset ");
    push_decimal(out, offset_instret as u64);
    push_str(out, " */\n");
    push_str(out, suspender_field);
    push_str(out, "\n    /* Reservation for LR/SC */\n    ");
    push_str(out, rtype);
    push_str(out, " reservation_addr;           /* offset ");
    push_decimal(out, offset_reservation_addr as u64);
}

fn push_state_struct_text_2(out: &mut String, rtype: &str, num_regs: u64, offset_regs: u64, offset_pc: u64, offset_instret: u64, suspender_field: &str, offset_reservation_addr: u64, offset_reservation_valid: u64, offset_has_exited: u64, offset_exit_code: u64, offset_pad0: u64, offset_brk: u64, offset_start_brk: u64, offset_memory: u64, tracer_field: &str, num_csrs: u64, csr_offset_comment: &str)
    ensures
        final(out)@ == state_struct_text_2(old(out)@, rtype@, num_regs as int, offset_regs as int, offset_pc as int, offset_instret as int, suspender_field@, offset_reservation_addr as int, offset_reservation_valid as int, offset_has_exited as int, offset_exit_code as int, offset_pad0 as int, offset_brk as int, offset_start_brk as int, offset_memory as int, tracer_field@, num_csrs as int, csr_offset_comment@),
{
    push_str(out, " */\n    uint8_t reservation_valid;          /* offset ");
    push_decimal(out, offset_reservation_valid as u64);
    push_str(out, " */\n\n    /* Execution control */\n    uint8_t has_exited;                 /* offset ");
    push_decimal(out, offset_has_exited as u64);
    push_str(out, " */\n    uint8_t exit_code;                  /* offset ");
    push_decimal(out, offset_exit_code as u64);
    push_str(out, " */\n    uint8_t _pad0;                      /* offset ");
    push_decimal(out, offset_pad0 as u64);
    push_str(out, " */\n\n    /* Heap management */\n    ");
    push_str(out, rtype);
    push_str(out, " brk;                        /* offset ");
    push_decimal(out, offset_brk as u64);
    push_str(out, " */\n    ");
    push_str(out, rtype);
    push_str(out, " start_brk;                  /* offset ");
    push_decimal(out, offset_start_brk as u64);
    push_str(out, " */\n\n    /* Cold fields (rarely accessed in hot paths) */\n    uint8_t* memory;                    /* offset ");
    push_decimal(out, offset_memory as u64);
}

fn push_state_struct_text_3(out: &mut String, rtype: &str, num_regs: u64, offset_regs: u64, offset_pc: u64, offset_instret: u64, suspender_field: &str, offset_reservation_addr: u64, offset_reservation_valid: u64, offset_has_exited: u64, offset_exit_code: u64, offset_pad0: u64, offset_brk: u64, offset_start_brk: u64, offset_memory: u64, tracer_field: &str, num_csrs: u64, csr_offset_comment: &str)
    ensures
        final(out)@ == state_struct_text_3(old(out)@, rtype@, num_regs as int, offset_regs as int, offset_pc as int, offset_instret as int, suspender_field@, offset_reservation_addr as int, offset_reservation_valid as int, offset_has_exited as int, offset_exit_code as int, offset_pad0 as int, offset_brk as int, offset_start_brk as int, offset_memory as int, tracer_field@, num_csrs as int, csr_offset_comment@),
{
    push_str(out, " */\n");
    push_str(out, tracer_field);
    push_str(out, "\n    /* CSRs at end (large array, rarely used) */\n    ");
    push_str(out, rtype);
    push_str(out, " csrs[");
    push_decimal(out, num_csrs as u64);
    push_str(out, "];           /* offset ");
    push_str(out, csr_offset_comment);
    push_str(out, " */\n} RvState;\n\n");
}

/// `x` followed by the `RvState` struct declaration.
pub open spec fn state_struct_text(x: Seq<char>, rtype: Seq<char>, num_regs: int, offset_regs: int, offset_pc: int, offset_instret: int, suspender_field: Seq<char>, offset_reservation_addr: int, offset_reservation_valid: int, offset_has_exited: int, offset_exit_code: int, offset_pad0: int, offset_brk: int, offset_start_brk: int, offset_memory: int, tracer_field: Seq<char>, num_csrs: int, csr_offset_comment: Seq<char>) -> Seq<char> {
    state_struct_text_3(state_struct_text_2(state_struct_text_1(x, rtype, num_regs, offset_regs, offset_pc, offset_instret, suspender_field, offset_reservation_addr, offset_reservation_valid, offset_has_exited, offset_exit_code, offset_pad0, offset_brk, offset_start_brk, offset_memory, tracer_field, num_csrs, csr_offset_comment), rtype, num_regs, offset_regs, offset_pc, offset_instret, suspender_field, offset_reservation_addr, offset_reservation_valid, offset_has_exited, offset_exit_code, offset_pad0, offset_brk, offset_start_brk, offset_memory, tracer_field, num_csrs, csr_offset_comment), rtype, num_regs, offset_regs, offset_pc, offset_instret, suspender_field, offset_reservation_addr, offset_reservation_valid, offset_has_exited, offset_exit_code, offset_pad0, offset_brk, offset_start_brk, offset_memory, tracer_field, num_csrs, csr_offset_comment)
}

fn push_state_struct_text(out: &mut String, rtype: &str, num_regs: u64, offset_regs: u64, offset_pc: u64, offset_instret: u64, suspender_field: &str, offset_reservation_addr: u64, offset_reservation_valid: u64, offset_has_exited: u64, offset_exit_code: u64, offset_pad0: u64, offset_brk: u64, offset_start_brk: u64, offset_memory: u64, tracer_field: &str, num_csrs: u64, csr_offset_comment: &str)
    ensures
        final(out)@ == state_struct_text(old(out)@, rtype@, num_regs as int, offset_regs as int, offset_pc as int, offset_instret as int, suspender_field@, offset_reservation_addr as int, offset_reservation_valid as int, offset_has_exited as int, offset_exit_code as int, offset_pad0 as int, offset_brk as int, offset_start_brk as int, offset_memory as int, tracer_field@, num_csrs as int, csr_offset_comment@),
{
    push_state_struct_text_1(out, rtype, num_regs, offset_regs, offset_pc, offset_instret, suspender_field, offset_reservation_addr, offset_reservation_valid, offset_has_exited, offset_exit_code, offset_pad0, offset_brk, offset_start_brk, offset_memory, tracer_field, num_csrs, csr_offset_comment);
    push_state_struct_text_2(out, rtype, num_regs, offset_regs, offset_pc, offset_instret, suspender_field, offset_reservation_addr, offset_reservation_valid, offset_has_exited, offset_exit_code, offset_pad0, offset_brk, offset_start_brk, offset_memory, tracer_field, num_csrs, csr_offset_comment);
    push_state_struct_text_3(out, rtype, num_regs, offset_regs, offset_pc, offset_instret, suspender_field, offset_reservation_addr, offset_reservation_valid, offset_has_exited, offset_exit_code, offset_pad0, offset_brk, offset_start_brk, offset_memory, tracer_field, num_csrs, csr_offset_comment);
}

/// `x` followed by the static assertions of the layout.
pub open spec fn layout_asserts_text(x: Seq<char>, offset_regs: int, offset_pc: int, offset_instret: int, offset_reservation_addr: int, offset_has_exited: int, offset_brk: int, offset_memory: int) -> Seq<char> {
    x + "/* Layout verification (C23 static_assert) */\nstatic_assert(offsetof(RvState, regs) == "@ + decimal(offset_regs as nat) + ");\nstatic_assert(offsetof(RvState, pc) == "@ + decimal(offset_pc as nat) + ");\nstatic_assert(offsetof(RvState, instret) == "@ + decimal(offset_instret as nat) + ");\nstatic_assert(offsetof(RvState, reservation_addr) == "@ + decimal(offset_reservation_addr as nat) + ");\nstatic_assert(offsetof(RvState, has_exited) == "@ + decimal(offset_has_exited as nat) + ");\nstatic_assert(offsetof(RvState, brk) == "@ + decimal(offset_brk as nat) + ");\nstatic_assert(offsetof(RvState, memory) == "@ + decimal(offset_memory as nat) + ");\n\n"@
}

fn push_layout_asserts_text(out: &mut String, offset_regs: u64, offset_pc: u64, offset_instret: u64, offset_reservation_addr: u64, offset_has_exited: u64, offset_brk: u64, offset_memory: u64)
    ensures
        final(out)@ == layout_asserts_text(old(out)@, offset_regs as int, offset_pc as int, offset_instret as int, offset_reservation_addr as int, offset_has_exited as int, offset_brk as int, offset_memory as int),
{
    push_str(out, "/* Layout verification (C23 static_assert) */\nstatic_assert(offsetof(RvState, regs) == ");
    push_decimal(out, offset_regs as u64);
    push_str(out, ");\nstatic_assert(offsetof(RvState, pc) == ");
    push_decimal(out, offset_pc as u64);
    push_str(out, ");\nstatic_assert(offsetof(RvState, instret) == ");
    push_decimal(out, offset_instret as u64);
    push_str(out, ");\nstatic_assert(offsetof(RvState, reservation_addr) == ");
    push_decimal(out, offset_reservation_addr as u64);
    push_str(out, ");\nstatic_assert(offsetof(RvState, has_exited) == ");
    push_decimal(out, offset_has_exited as u64);
    push_str(out, ");\nstatic_assert(offsetof(RvState, brk) == ");
    push_decimal(out, offset_brk as u64);
    push_str(out, ");\nstatic_assert(offsetof(RvState, memory) == ");
    push_decimal(out, offset_memory as u64);
    push_str(out, ");\n\n");
}

/// The `target_instret` field line, when execution suspends.
pub open spec fn suspender_field_text(suspend: bool, offset: int) -> Seq<char> {
    if suspend {
        "    uint64_t target_instret;            /* offset "@ + decimal(offset as nat) + " */\n"@
    } else {
        seq![]
    }
}

/// The embedded tracer field, when tracing is enabled.
pub open spec fn tracer_field_text(has_tracer: bool, offset: int) -> Seq<char> {
    if has_tracer {
        "\n    /* Tracer - embedded struct */\n    Tracer tracer;                      /* offset "@ + decimal(
            offset as nat,
        ) + " */\n"@
    } else {
        seq![]
    }
}

/// The state struct and its layout assertions for a header configuration.
pub open spec fn state_section(cfg: HeaderConfig) -> Seq<char> {
    let l = layout_of(
        (cfg.xlen.bits() / 8) as int,
        cfg.num_registers as int,
        cfg.instret_mode == InstretMode::Suspend || cfg.instret_mode == InstretMode::PerInstruction,
    );
    let has_tracer = cfg.tracer_config.builtin != Some(TracerKind::NoTracer);
    let suspend = cfg.instret_mode == InstretMode::Suspend || cfg.instret_mode
        == InstretMode::PerInstruction;
    let offset_csrs = l.10 + 8;
    let s = state_struct_text(
        seq![],
        rtype_of(cfg.xlen),
        cfg.num_registers as int,
        l.0,
        l.1,
        l.2,
        suspender_field_text(suspend, l.3),
        l.4,
        l.5,
        l.6,
        l.7,
        l.7 + 1,
        l.8,
        l.9,
        l.10,
        tracer_field_text(has_tracer, l.10 + 8),
        NUM_CSRS as int,
        if has_tracer {
            "after Tracer"@
        } else {
            decimal(offset_csrs as nat)
        },
    );
    let a = layout_asserts_text(s, l.0, l.1, l.2, l.4, l.6, l.8, l.10);
    if has_tracer {
        a
    } else {
        a + "static_assert(offsetof(RvState, csrs) == "@ + decimal(offset_csrs as nat) + ");\n"@
            + "\n"@
    }
}

/// The state struct declaration with each field's offset, followed by
/// static assertions that the C compiler agrees with the layout.
pub fn gen_state_struct(cfg: &HeaderConfig) -> (r: String)
    requires
        cfg.num_registers * 8 + 256 <= usize::MAX,
    ensures
        r@ == state_section(*cfg),
{
    let rtype = reg_type(cfg.xlen);
    let has_tracer = !cfg.tracer_config.is_none();
    let reg_bytes = cfg.xlen.reg_bytes();
    let num_regs = cfg.num_registers;
    assert(num_regs * reg_bytes <= num_regs * 8) by (nonlinear_arith)
        requires
            reg_bytes <= 8,
    ;
    let layout = RvStateLayout::from_params(reg_bytes, num_regs, cfg.instret_mode.suspends());
    let offset_tracer = layout.offset_memory + 8;
    let offset_csrs = layout.offset_memory + 8;
    let mut suspender_field = String::new();
    if layout.instret_suspend {
        push_str(&mut suspender_field, "    uint64_t target_instret;            /* offset ");
        push_decimal(&mut suspender_field, layout.offset_target_instret as u64);
        push_str(&mut suspender_field, " */\n");
    }
    let offset_pad0 = layout.offset_exit_code + 1;
    let mut tracer_field = String::new();
    if has_tracer {
        push_str(&mut tracer_field, "\n    /* Tracer - embedded struct */\n    Tracer tracer;                      /* offset ");
        push_decimal(&mut tracer_field, offset_tracer as u64);
        push_str(&mut tracer_field, " */\n");
    }
    let csr_offset_comment = if has_tracer {
        crate::text::string_of("after Tracer")
    } else {
        to_decimal(offset_csrs as u64)
    };
    let mut s = String::new();
    push_state_struct_text(
        &mut s,
        rtype,
        cfg.num_registers as u64,
        layout.offset_regs as u64,
        layout.offset_pc as u64,
        layout.offset_instret as u64,
        suspender_field.as_str(),
        layout.offset_reservation_addr as u64,
        layout.offset_reservation_valid as u64,
        layout.offset_has_exited as u64,
        layout.offset_exit_code as u64,
        offset_pad0 as u64,
        layout.offset_brk as u64,
        layout.offset_start_brk as u64,
        layout.offset_memory as u64,
        tracer_field.as_str(),
        NUM_CSRS as u64,
        csr_offset_comment.as_str(),
    );
    push_layout_asserts_text(
        &mut s,
        layout.offset_regs as u64,
        layout.offset_pc as u64,
        layout.offset_instret as u64,
        layout.offset_reservation_addr as u64,
        layout.offset_has_exited as u64,
        layout.offset_brk as u64,
        layout.offset_memory as u64,
    );
    if !has_tracer {
        push_str(&mut s, "static_assert(offsetof(RvState, csrs) == ");
        push_decimal(&mut s, offset_csrs as u64);
        push_str(&mut s, ");\n");
        push_str(&mut s, "\n");
    }
    s
}

} // verus!
