//! C header generation: the main header with constants, the guest state
//! struct, memory and CSR accessors, helpers and dispatch declarations, and
//! the blocks header with forward declarations of every block function.

use vstd::prelude::*;

use crate::c_config::{TracerConfig, TracerKind};
use crate::config::{AddressMode, EmitConfig, FixedAddressConfig, InstretMode, SyscallMode, Xlen};
use crate::inputs::EmitInputs;
use crate::signature::FnSignature;
use crate::text::{push_str, replace_all, replaced, string_of};

pub mod csr;
pub mod dispatch;
pub mod helpers;
pub mod memory;
pub mod prelude;
pub mod state;
pub mod trace;

use csr::{csr_section, gen_csr_functions};
use dispatch::{block_decls, dispatch_section, fn_type_text, gen_block_declarations, gen_dispatch, gen_fn_type, gen_syscall_declarations, syscall_decls_text};
use helpers::{gen_helpers, HELPERS};
use memory::{gen_memory_functions, memory_section};
use prelude::{constants_section, gen_constants, gen_pragma_and_includes, htif_include_text, pragma_text, tracer_include_text};
use state::{gen_state_struct, state_section};
use trace::{gen_trace_helpers, trace_replacements, TRACE_TEMPLATE};

verus! {

/// Number of CSRs in the state struct.
pub const NUM_CSRS: usize = 4096;

/// CSR addresses.
pub const CSR_MISA: u32 = 0x301;
pub const CSR_CYCLE: u32 = 0xC00;
pub const CSR_CYCLEH: u32 = 0xC80;
pub const CSR_INSTRET: u32 = 0xC02;
pub const CSR_INSTRETH: u32 = 0xC82;
pub const CSR_MCYCLE: u32 = 0xB00;
pub const CSR_MCYCLEH: u32 = 0xB80;
pub const CSR_MINSTRET: u32 = 0xB02;
pub const CSR_MINSTRETH: u32 = 0xB82;

/// The C register type for a register width.
pub open spec fn rtype_of(xlen: Xlen) -> Seq<char> {
    if xlen == Xlen::Rv64 {
        "uint64_t"@
    } else {
        "uint32_t"@
    }
}

/// `t` after each replacement in order.
pub open spec fn expanded(t: Seq<char>, reps: Seq<(Seq<char>, Seq<char>)>) -> Seq<char>
    decreases reps.len(),
{
    if reps.len() == 0 {
        t
    } else {
        replaced(expanded(t, reps.drop_last()), reps.last().0, reps.last().1)
    }
}

/// A template with `{{`/`}}` unescaped and then each replacement applied.
pub open spec fn expanded_text(template: Seq<char>, reps: Seq<(Seq<char>, Seq<char>)>) -> Seq<char> {
    expanded(replaced(replaced(template, "{{"@, "{"@), "}}"@, "}"@), reps)
}

/// Expand a template: unescape `{{` and `}}`, then replace each placeholder
/// in turn.
pub fn expand_template(template: &str, replacements: &[(&str, &str)]) -> (r: String)
    requires
        forall|i: int| 0 <= i < replacements@.len() ==> (#[trigger] replacements@[i]).0@.len() > 0,
    ensures
        r@ == expanded_text(template@, replacements@.map_values(|p: (&str, &str)| (p.0@, p.1@))),
{
    proof {
        reveal_strlit("{{");
        reveal_strlit("}}");
    }
    let open = replace_all(template, "{{", "{");
    let mut result = replace_all(open.as_str(), "}}", "}");
    let ghost reps = replacements@.map_values(|p: (&str, &str)| (p.0@, p.1@));
    let ghost base = result@;
    let mut k: usize = 0;
    assert(reps.take(0) =~= Seq::<(Seq<char>, Seq<char>)>::empty());
    while k < replacements.len()
        invariant
            k <= replacements@.len(),
            reps == replacements@.map_values(|p: (&str, &str)| (p.0@, p.1@)),
            forall|i: int| 0 <= i < replacements@.len() ==> (#[trigger] replacements@[i]).0@.len() > 0,
            result@ == expanded(base, reps.take(k as int)),
        decreases replacements.len() - k,
    {
        let (from, to) = replacements[k];
        assert(reps.take(k + 1).drop_last() =~= reps.take(k as int));
        result = replace_all(result.as_str(), from, to);
        k += 1;
    }
    assert(reps.take(k as int) =~= reps);
    result
}

/// Header generation configuration.
pub struct HeaderConfig {
    /// Base name for output files.
    pub base_name: String,
    /// Memory address bits.
    pub memory_bits: u8,
    /// Number of registers.
    pub num_registers: usize,
    /// Instret counting mode.
    pub instret_mode: InstretMode,
    /// Whether HTIF (host-target interface) is enabled.
    pub htif_enabled: bool,
    /// Address translation mode.
    pub address_mode: AddressMode,
    /// Entry point address.
    pub entry_point: u64,
    /// Text section start (dispatch table base).
    pub text_start: u64,
    /// Block start addresses.
    pub block_addresses: Vec<u64>,
    /// Function signature.
    pub sig: FnSignature,
    /// Tracer configuration.
    pub tracer_config: TracerConfig,
    /// Syscall mode.
    pub syscall_mode: SyscallMode,
    /// Fixed addresses for state and memory (optional).
    pub fixed_addresses: Option<FixedAddressConfig>,
    /// Register width of the guest.
    pub xlen: Xlen,
}

/// A copy of a tracer configuration.
fn copy_tracer_config(t: &TracerConfig) -> (r: TracerConfig)
    ensures
        r.builtin == t.builtin,
        r.passed_vars@.len() == t.passed_vars@.len(),
        forall|i: int| 0 <= i < t.passed_vars@.len() ==> (#[trigger] r.passed_vars@[i])@ == t.passed_vars@[i]@,
        r.passed_var_params@ == t.passed_var_params@,
        r.passed_var_args@ == t.passed_var_args@,
        r.passed_var_args_from_state@ == t.passed_var_args_from_state@,
        r.passed_var_save_to_state@ == t.passed_var_save_to_state@,
{
    let mut vars: Vec<String> = Vec::new();
    let mut i: usize = 0;
    while i < t.passed_vars.len()
        invariant
            i <= t.passed_vars@.len(),
            vars@.len() == i,
            forall|j: int| 0 <= j < i ==> (#[trigger] vars@[j])@ == t.passed_vars@[j]@,
        decreases t.passed_vars.len() - i,
    {
        vars.push(string_of(t.passed_vars[i].as_str()));
        i += 1;
    }
    TracerConfig {
        builtin: t.builtin,
        passed_vars: vars,
        passed_var_params: string_of(t.passed_var_params.as_str()),
        passed_var_args: string_of(t.passed_var_args.as_str()),
        passed_var_args_from_state: string_of(t.passed_var_args_from_state.as_str()),
        passed_var_save_to_state: string_of(t.passed_var_save_to_state.as_str()),
    }
}

impl HeaderConfig {
    /// Header configuration from an emit configuration and the program's
    /// inputs.
    pub fn new(base_name: &str, config: &EmitConfig, inputs: &EmitInputs, block_addresses: Vec<u64>) -> (r: Self)
        requires
            forall|i: int| 0 <= i < config.hot_regs@.len() ==> config.hot_regs@[i] < 32,
        ensures
            r.base_name@ == base_name@,
            r.memory_bits == config.memory_bits,
            r.num_registers == config.num_regs,
            r.instret_mode == config.instret_mode,
            r.htif_enabled == config.flags.has(crate::config::HTIF_ENABLED),
            r.address_mode == config.address_mode,
            r.entry_point == inputs.entry_point,
            r.text_start == inputs.text_start,
            r.block_addresses@ == block_addresses@,
            r.sig.params@ == crate::signature::signature_text(*config).0,
            r.sig.args_from_state@ == crate::signature::signature_text(*config).2,
            r.tracer_config.builtin == config.tracer_config.builtin,
            r.syscall_mode == config.syscall_mode,
            r.fixed_addresses == config.fixed_addresses,
            r.xlen == config.xlen,
    {
        HeaderConfig {
            base_name: string_of(base_name),
            memory_bits: config.memory_bits,
            num_registers: config.num_regs,
            instret_mode: config.instret_mode,
            htif_enabled: config.htif_enabled(),
            address_mode: config.address_mode,
            entry_point: inputs.entry_point,
            text_start: inputs.text_start,
            block_addresses,
            sig: FnSignature::new(config),
            tracer_config: copy_tracer_config(&config.tracer_config),
            syscall_mode: config.syscall_mode,
            fixed_addresses: config.fixed_addresses,
            xlen: config.xlen,
        }
    }

    /// Bytes per register.
    pub fn reg_bytes(&self) -> (r: usize)
        ensures
            r == self.xlen.bits() / 8,
    {
        self.xlen.reg_bytes()
    }
}

/// The main header.
pub open spec fn header_text(cfg: HeaderConfig) -> Seq<char> {
    pragma_text(seq![], htif_include_text(cfg), tracer_include_text(cfg)) + constants_section(cfg)
        + state_section(cfg) + memory_section(cfg) + csr_section(cfg) + HELPERS@ + (if cfg.tracer_config.builtin
        != Some(TracerKind::NoTracer) {
        expanded_text(TRACE_TEMPLATE@, trace_replacements(cfg))
    } else {
        seq![]
    }) + (if cfg.syscall_mode == SyscallMode::Linux {
        syscall_decls_text(seq![], rtype_of(cfg.xlen))
    } else {
        seq![]
    }) + fn_type_text(seq![], cfg.sig.params@) + dispatch_section(cfg)
}

/// Generate the main header file.
pub fn gen_header(cfg: &HeaderConfig) -> (r: String)
    requires
        cfg.num_registers * 8 + 256 <= usize::MAX,
    ensures
        r@ == header_text(*cfg),
{
    let mut s = gen_pragma_and_includes(cfg);
    let part = gen_constants(cfg);
    push_str(&mut s, part.as_str());
    let part = gen_state_struct(cfg);
    push_str(&mut s, part.as_str());
    let part = gen_memory_functions(cfg);
    push_str(&mut s, part.as_str());
    let part = gen_csr_functions(cfg);
    push_str(&mut s, part.as_str());
    let part = gen_helpers();
    push_str(&mut s, part.as_str());
    let ghost before_trace = s@;
    if !cfg.tracer_config.is_none() {
        let part = gen_trace_helpers(cfg);
        push_str(&mut s, part.as_str());
    }
    let ghost before_sys = s@;
    if cfg.syscall_mode == SyscallMode::Linux {
        let part = gen_syscall_declarations(cfg);
        push_str(&mut s, part.as_str());
    }
    let ghost before_fn = s@;
    let part = gen_fn_type(cfg);
    push_str(&mut s, part.as_str());
    let part = gen_dispatch(cfg);
    push_str(&mut s, part.as_str());
    assert(s@ =~= header_text(*cfg));
    s
}

/// The blocks header.
pub open spec fn blocks_header_text(cfg: HeaderConfig) -> Seq<char> {
    "#pragma once\n#include \""@ + cfg.base_name@
        + ".h\"\n\n/* Trap handler for invalid addresses */\n__attribute__((preserve_none)) void rv_trap("@
        + cfg.sig.params@ + ");\n\n"@ + "/* Block forward declarations */\n"@ + block_decls(
        cfg.block_addresses@,
        cfg.sig.params@,
        if cfg.xlen == Xlen::Rv64 {
            16nat
        } else {
            8nat
        },
        cfg.block_addresses@.len() as int,
    ) + "\n"@
}

/// Generate the blocks header with forward declarations.
pub fn gen_blocks_header(cfg: &HeaderConfig) -> (r: String)
    ensures
        r@ == blocks_header_text(*cfg),
{
    let decls = gen_block_declarations(cfg);
    let mut s = String::new();
    push_str(&mut s, "#pragma once\n#include \"");
    push_str(&mut s, cfg.base_name.as_str());
    push_str(
        &mut s,
        ".h\"\n\n/* Trap handler for invalid addresses */\n__attribute__((preserve_none)) void rv_trap(",
    );
    push_str(&mut s, cfg.sig.params.as_str());
    push_str(&mut s, ");\n\n");
    push_str(&mut s, decls.as_str());
    push_str(&mut s, "\n");
    assert(s@ =~= blocks_header_text(*cfg));
    s
}

} // verus!
