//! Dispatch table generation for the recompiled C code: the `dispatch.c`
//! source with the trap handler for invalid addresses, the table that maps
//! each 2-byte code slot to its block function, and the runtime entry point.

use vstd::prelude::*;

use crate::config::{EmitConfig, InstretMode};
use crate::inputs::EmitInputs;
use crate::signature::FnSignature;
use crate::text::{hex_padded, push_hex_padded, push_str, string_of};

verus! {

broadcast use vstd::std_specs::hash::group_hash_axioms;

/// Instruction slot size (2 bytes for compressed instruction support).
pub const INSTRUCTION_SIZE: u64 = 2;

/// Dispatch generation configuration.
pub struct DispatchConfig {
    /// Base name for output files.
    pub base_name: String,
    /// Derived inputs (entry point, code end, block addresses).
    pub inputs: EmitInputs,
    /// Instret counting mode.
    pub instret_mode: InstretMode,
    /// Function signature.
    pub sig: FnSignature,
    /// Memory address bits.
    pub memory_bits: u8,
    /// Whether tracing is enabled.
    pub has_tracing: bool,
}

impl DispatchConfig {
    /// Dispatch configuration of an emit configuration.
    pub fn new(config: &EmitConfig, base_name: &str, inputs: EmitInputs) -> (r: Self)
        requires
            forall|i: int| 0 <= i < config.hot_regs@.len() ==> config.hot_regs@[i] < 32,
        ensures
            r.base_name@ == base_name@,
            r.inputs == inputs,
            r.instret_mode == config.instret_mode,
            r.sig.params@ == crate::signature::signature_text(*config).0,
            r.sig.args_from_state@ == crate::signature::signature_text(*config).2,
            r.memory_bits == config.memory_bits,
            r.has_tracing == (config.tracer_config.builtin != Some(crate::c_config::TracerKind::NoTracer)),
    {
        DispatchConfig {
            base_name: string_of(base_name),
            inputs,
            instret_mode: config.instret_mode,
            sig: FnSignature::new(config),
            memory_bits: config.memory_bits,
            has_tracing: !config.tracer_config.is_none(),
        }
    }
}

/// Name of the block function that starts at `addr`.
pub open spec fn block_fn_name(addr: u64) -> Seq<char> {
    "B_"@ + hex_padded(addr as nat, 16)
}

/// Dispatch table entry for the slot at `addr`: the block starting there,
/// else the merged block that absorbed it, else the trap handler.
pub open spec fn table_entry(valid: Set<u64>, absorbed: Map<u64, u64>, addr: u64) -> Seq<char> {
    if valid.contains(addr) {
        "    "@ + block_fn_name(addr) + ",\n"@
    } else if absorbed.contains_key(addr) {
        "    "@ + block_fn_name(absorbed[addr]) + ",\n"@
    } else {
        "    rv_trap,\n"@
    }
}

/// Entries for the slots `addr, addr + 2, ...` below `end`.
pub open spec fn table_entries(valid: Set<u64>, absorbed: Map<u64, u64>, addr: int, end: int) -> Seq<
    char,
>
    decreases end - addr + 1,
{
    if 0 <= addr < end && addr <= u64::MAX {
        table_entry(valid, absorbed, addr as u64) + table_entries(valid, absorbed, addr + 2, end)
    } else {
        seq![]
    }
}

/// The trap handler that stands in the table for invalid addresses.
pub open spec fn trap_handler_text(params: Seq<char>) -> Seq<char> {
    "/* Trap handler for invalid addresses - replaces NULL checks */\n__attribute__((preserve_none, cold))\nvoid rv_trap("@
        + params + ") {\n    state->has_exited = true;\n    state->exit_code = 1;\n}\n"@
}

/// The runtime entry point `rv_execute_from`.
pub open spec fn runtime_text(suspends: bool, tracing: bool, args_from_state: Seq<char>) -> Seq<char> {
    let suspend_check = if suspends {
        "\n    if (state->target_instret <= state->instret) return 2;"@
    } else {
        ""@
    };
    let trace_init = if tracing {
        "trace_init(&state->tracer);"@
    } else {
        ""@
    };
    let trace_fini = if tracing {
        "trace_fini(&state->tracer);"@
    } else {
        ""@
    };
    "/* Execute from given PC. Returns: 0=continue, 1=exited, 2=suspended */\n__attribute__((hot, nonnull))\nint rv_execute_from(RvState* restrict state, uint32_t start_pc) {\n    "@
        + trace_init + "\n    state->pc = start_pc;\n    dispatch_table[dispatch_index(start_pc)]("@
        + args_from_state + ");\n    "@ + trace_fini + "\n    if (state->has_exited) return 1;"@
        + suspend_check + "\n    return 0;\n}\n"@
}

/// The whole `dispatch.c` source.
pub open spec fn dispatch_file_text(cfg: DispatchConfig) -> Seq<char> {
    "#include \""@ + cfg.base_name@ + "_blocks.h\"\n\n"@ + trap_handler_text(cfg.sig.params@) + "\n"@
        + "/* Dispatch table: PC -> block function */\n"@ + "const rv_fn dispatch_table[] = {\n"@
        + table_entries(
        cfg.inputs.valid_addresses@,
        cfg.inputs.absorbed_to_merged@,
        cfg.inputs.entry_point as int,
        cfg.inputs.pc_end as int,
    ) + "};\n\n"@ + runtime_text(
        cfg.instret_mode == InstretMode::Suspend || cfg.instret_mode == InstretMode::PerInstruction,
        cfg.has_tracing,
        cfg.sig.args_from_state@,
    )
}

/// Append `"    B_<addr>,\n"`.
fn push_table_block(s: &mut String, addr: u64)
    ensures
        final(s)@ == old(s)@ + "    "@ + block_fn_name(addr) + ",\n"@,
{
    let ghost start = s@;
    push_str(s, "    B_");
    push_hex_padded(s, addr, 16);
    push_str(s, ",\n");
    assert(s@ =~= start + "    "@ + block_fn_name(addr) + ",\n"@) by {
        reveal_strlit("    B_");
        reveal_strlit("    ");
        reveal_strlit("B_");
    }
}

/// Generate the `dispatch.c` file.
pub fn gen_dispatch_file(cfg: &DispatchConfig) -> (r: String)
    requires
        cfg.inputs.pc_end < u64::MAX,
    ensures
        r@ == dispatch_file_text(*cfg),
{
    let mut s = String::new();
    push_str(&mut s, "#include \"");
    push_str(&mut s, cfg.base_name.as_str());
    push_str(&mut s, "_blocks.h\"\n\n");

    let trap = gen_trap_handler(cfg);
    push_str(&mut s, trap.as_str());
    push_str(&mut s, "\n");

    push_str(&mut s, "/* Dispatch table: PC -> block function */\n");
    push_str(&mut s, "const rv_fn dispatch_table[] = {\n");

    let ghost valid = cfg.inputs.valid_addresses@;
    let ghost absorbed = cfg.inputs.absorbed_to_merged@;
    let ghost end = cfg.inputs.pc_end as int;
    let ghost goal = s@ + table_entries(valid, absorbed, cfg.inputs.entry_point as int, end);
    let mut addr = cfg.inputs.entry_point;
    while addr < cfg.inputs.pc_end
        invariant
            cfg.inputs.pc_end < u64::MAX,
            valid == cfg.inputs.valid_addresses@,
            absorbed == cfg.inputs.absorbed_to_merged@,
            end == cfg.inputs.pc_end as int,
            s@ + table_entries(valid, absorbed, addr as int, end) == goal,
        decreases cfg.inputs.pc_end + 2 - addr,
    {
        let ghost before = s@;
        if cfg.inputs.valid_addresses.contains(&addr) {
            push_table_block(&mut s, addr);
        } else {
            match cfg.inputs.absorbed_to_merged.get(&addr) {
                Some(merged) => {
                    push_table_block(&mut s, *merged);
                },
                None => {
                    push_str(&mut s, "    rv_trap,\n");
                },
            }
        }
        assert(s@ =~= before + table_entry(valid, absorbed, addr));
        assert(before + table_entries(valid, absorbed, addr as int, end) =~= s@ + table_entries(
            valid,
            absorbed,
            addr + 2,
            end,
        ));
        addr = addr + INSTRUCTION_SIZE;
    }
    assert(table_entries(valid, absorbed, addr as int, end) =~= Seq::<char>::empty());
    assert(s@ =~= goal);

    push_str(&mut s, "};\n\n");
    let runtime = gen_runtime_functions(cfg);
    push_str(&mut s, runtime.as_str());
    assert(s@ =~= dispatch_file_text(*cfg));
    s
}

/// The trap handler for invalid addresses.
fn gen_trap_handler(cfg: &DispatchConfig) -> (r: String)
    ensures
        r@ == trap_handler_text(cfg.sig.params@),
{
    let mut s = String::new();
    push_str(
        &mut s,
        "/* Trap handler for invalid addresses - replaces NULL checks */\n__attribute__((preserve_none, cold))\nvoid rv_trap(",
    );
    push_str(&mut s, cfg.sig.params.as_str());
    push_str(&mut s, ") {\n    state->has_exited = true;\n    state->exit_code = 1;\n}\n");
    assert(s@ =~= trap_handler_text(cfg.sig.params@));
    s
}

/// The runtime entry point.
fn gen_runtime_functions(cfg: &DispatchConfig) -> (r: String)
    ensures
        r@ == runtime_text(
            cfg.instret_mode == InstretMode::Suspend || cfg.instret_mode == InstretMode::PerInstruction,
            cfg.has_tracing,
            cfg.sig.args_from_state@,
        ),
{
    let suspend_check = if cfg.instret_mode.suspends() {
        "\n    if (state->target_instret <= state->instret) return 2;"
    } else {
        ""
    };
    let trace_init = if cfg.has_tracing {
        "trace_init(&state->tracer);"
    } else {
        ""
    };
    let trace_fini = if cfg.has_tracing {
        "trace_fini(&state->tracer);"
    } else {
        ""
    };
    let mut s = String::new();
    push_str(
        &mut s,
        "/* Execute from given PC. Returns: 0=continue, 1=exited, 2=suspended */\n__attribute__((hot, nonnull))\nint rv_execute_from(RvState* restrict state, uint32_t start_pc) {\n    ",
    );
    push_str(&mut s, trace_init);
    push_str(&mut s, "\n    state->pc = start_pc;\n    dispatch_table[dispatch_index(start_pc)](");
    push_str(&mut s, cfg.sig.args_from_state.as_str());
    push_str(&mut s, ");\n    ");
    push_str(&mut s, trace_fini);
    push_str(&mut s, "\n    if (state->has_exited) return 1;");
    push_str(&mut s, suspend_check);
    push_str(&mut s, "\n    return 0;\n}\n");
    assert(s@ =~= runtime_text(
        cfg.instret_mode == InstretMode::Suspend || cfg.instret_mode == InstretMode::PerInstruction,
        cfg.has_tracing,
        cfg.sig.args_from_state@,
    ));
    s
}

} // verus!
