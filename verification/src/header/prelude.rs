use vstd::prelude::*;

use super::{rtype_of, HeaderConfig, CSR_CYCLE, CSR_CYCLEH, CSR_INSTRET, CSR_INSTRETH, CSR_MCYCLE,
    CSR_MCYCLEH, CSR_MINSTRET, CSR_MINSTRETH, CSR_MISA};
use crate::c_config::TracerKind;
use crate::config::Xlen;
use crate::text::{decimal, hex, push_decimal, push_hex, push_str, string_of};

verus! {

/// `x` followed by the pragma, includes and branch hints.
pub open spec fn pragma_text(x: Seq<char>, htif_include: Seq<char>, tracer_include: Seq<char>) -> Seq<char> {
    x + "#pragma once\n#include <stdint.h>\n#include <stddef.h>\n#include <stdbool.h>\n#include <string.h>\n#include <stdio.h>\n#include <stdlib.h>\n#include <assert.h>\n#include <sys/mman.h>\n\n"@ + htif_include + tracer_include + "/* Branch prediction hints */\nstatic inline int likely(int x) { return __builtin_expect(!!(x), 1); }\nstatic inline int unlikely(int x) { return __builtin_expect(!!(x), 0); }\n\n"@
}

fn push_pragma_text(out: &mut String, htif_include: &str, tracer_include: &str)
    ensures
        final(out)@ == pragma_text(old(out)@, htif_include@, tracer_include@),
{
    push_str(out, "#pragma once\n#include <stdint.h>\n#include <stddef.h>\n#include <stdbool.h>\n#include <string.h>\n#include <stdio.h>\n#include <stdlib.h>\n#include <assert.h>\n#include <sys/mman.h>\n\n");
    push_str(out, htif_include);
    push_str(out, tracer_include);
    push_str(out, "/* Branch prediction hints */\nstatic inline int likely(int x) { return __builtin_expect(!!(x), 1); }\nstatic inline int unlikely(int x) { return __builtin_expect(!!(x), 0); }\n\n");
}

/// The include of the HTIF header, when HTIF is enabled.
pub open spec fn htif_include_text(cfg: HeaderConfig) -> Seq<char> {
    if cfg.htif_enabled {
        "#include \""@ + cfg.base_name@ + "_htif.h\"\n"@
    } else {
        seq![]
    }
}

/// The include of the tracer header, when tracing is enabled.
pub open spec fn tracer_include_text(cfg: HeaderConfig) -> Seq<char> {
    if cfg.tracer_config.builtin == Some(TracerKind::NoTracer) {
        ""@
    } else {
        "#include \"rv_tracer.h\"\n"@
    }
}

/// Pragma, standard includes, optional HTIF and tracer includes, and the
/// branch prediction hints.
pub fn gen_pragma_and_includes(cfg: &HeaderConfig) -> (r: String)
    ensures
        r@ == pragma_text(seq![], htif_include_text(*cfg), tracer_include_text(*cfg)),
{
    let htif_include = if cfg.htif_enabled {
        let mut h = string_of("#include \"");
        push_str(&mut h, cfg.base_name.as_str());
        push_str(&mut h, "_htif.h\"\n");
        h
    } else {
        String::new()
    };
    let tracer_include = if cfg.tracer_config.is_none() {
        ""
    } else {
        "#include \"rv_tracer.h\"\n"
    };
    let mut out = String::new();
    push_pragma_text(&mut out, htif_include.as_str(), tracer_include);
    out
}

/// `x` followed by the architecture, memory, entry point and CSR constants (part 1 of 2).
pub open spec fn constants_text_1(x: Seq<char>, xlen: int, memory_bits: int, entry_point: int, csr_misa: int, csr_cycle: int, csr_cycleh: int, csr_instret: int, csr_instreth: int, csr_mcycle: int, csr_mcycleh: int, csr_minstret: int, csr_minstreth: int) -> Seq<char> {
    x + "/* Architecture constants (C23 constexpr) */\nconstexpr int XLEN = "@ + decimal(xlen as nat) + ";\n\n/* Memory configuration */\nconstexpr int MEMORY_BITS = "@ + decimal(memory_bits as nat) + ";\nconstexpr uint64_t RV_MEMORY_SIZE = 1ull << "@ + decimal(memory_bits as nat) + ";\nconstexpr uint64_t RV_MEMORY_MASK = (1ull << "@ + decimal(memory_bits as nat) + ") - 1;\n\n/* Entry point */\nconstexpr uint32_t RV_ENTRY_POINT = 0x"@ + hex(entry_point as nat) + ";\n\n/* CSR addresses */\nconstexpr uint32_t CSR_MISA      = 0x"@ + hex(csr_misa as nat) + ";\nconstexpr uint32_t CSR_CYCLE     = 0x"@ + hex(csr_cycle as nat) + ";\nconstexpr uint32_t CSR_CYCLEH    = 0x"@ + hex(csr_cycleh as nat) + ";\nconstexpr uint32_t CSR_INSTRET   = 0x"@ + hex(csr_instret as nat) + ";\nconstexpr uint32_t CSR_INSTRETH  = 0x"@ + hex(csr_instreth as nat)
}

/// `x` followed by the architecture, memory, entry point and CSR constants (part 2 of 2).
pub open spec fn constants_text_2(x: Seq<char>, xlen: int, memory_bits: int, entry_point: int, csr_misa: int, csr_cycle: int, csr_cycleh: int, csr_instret: int, csr_instreth: int, csr_mcycle: int, csr_mcycleh: int, csr_minstret: int, csr_minstreth: int) -> Seq<char> {
    x + ";\nconstexpr uint32_t CSR_MCYCLE    = 0x"@ + hex(csr_mcycle as nat) + ";\nconstexpr uint32_t CSR_MCYCLEH   = 0x"@ + hex(csr_mcycleh as nat) + ";\nconstexpr uint32_t CSR_MINSTRET  = 0x"@ + hex(csr_minstret as nat) + ";\nconstexpr uint32_t CSR_MINSTRETH = 0x"@ + hex(csr_minstreth as nat) + ";\n\n/* RISC-V division special values */\nconstexpr uint32_t RV_DIV_BY_ZERO = UINT32_MAX;\nconstexpr int32_t  RV_INT32_MIN   = INT32_MIN;\n\n"@
}

fn push_constants_text_1(out: &mut String, xlen: u64, memory_bits: u64, entry_point: u64, csr_misa: u64, csr_cycle: u64, csr_cycleh: u64, csr_instret: u64, csr_instreth: u64, csr_mcycle: u64, csr_mcycleh: u64, csr_minstret: u64, csr_minstreth: u64)
    ensures
        final(out)@ == constants_text_1(old(out)@, xlen as int, memory_bits as int, entry_point as int, csr_misa as int, csr_cycle as int, csr_cycleh as int, csr_instret as int, csr_instreth as int, csr_mcycle as int, csr_mcycleh as int, csr_minstret as int, csr_minstreth as int),
{
    push_str(out, "/* Architecture constants (C23 constexpr) */\nconstexpr int XLEN = ");
    push_decimal(out, xlen as u64);
    push_str(out, ";\n\n/* Memory configuration */\nconstexpr int MEMORY_BITS = ");
    push_decimal(out, memory_bits as u64);
    push_str(out, ";\nconstexpr uint64_t RV_MEMORY_SIZE = 1ull << ");
    push_decimal(out, memory_bits as u64);
    push_str(out, ";\nconstexpr uint64_t RV_MEMORY_MASK = (1ull << ");
    push_decimal(out, memory_bits as u64);
    push_str(out, ") - 1;\n\n/* Entry point */\nconstexpr uint32_t RV_ENTRY_POINT = 0x");
    push_hex(out, entry_point);
    push_str(out, ";\n\n/* CSR addresses */\nconstexpr uint32_t CSR_MISA      = 0x");
    push_hex(out, csr_misa);
    push_str(out, ";\nconstexpr uint32_t CSR_CYCLE     = 0x");
    push_hex(out, csr_cycle);
    push_str(out, ";\nconstexpr uint32_t CSR_CYCLEH    = 0x");
    push_hex(out, csr_cycleh);
    push_str(out, ";\nconstexpr uint32_t CSR_INSTRET   = 0x");
    push_hex(out, csr_instret);
    push_str(out, ";\nconstexpr uint32_t CSR_INSTRETH  = 0x");
    push_hex(out, csr_instreth);
}

fn push_constants_text_2(out: &mut String, xlen: u64, memory_bits: u64, entry_point: u64, csr_misa: u64, csr_cycle: u64, csr_cycleh: u64, csr_instret: u64, csr_instreth: u64, csr_mcycle: u64, csr_mcycleh: u64, csr_minstret: u64, csr_minstreth: u64)
    ensures
        final(out)@ == constants_text_2(old(out)@, xlen as int, memory_bits as int, entry_point as int, csr_misa as int, csr_cycle as int, csr_cycleh as int, csr_instret as int, csr_instreth as int, csr_mcycle as int, csr_mcycleh as int, csr_minstret as int, csr_minstreth as int),
{
    push_str(out, ";\nconstexpr uint32_t CSR_MCYCLE    = 0x");
    push_hex(out, csr_mcycle);
    push_str(out, ";\nconstexpr uint32_t CSR_MCYCLEH   = 0x");
    push_hex(out, csr_mcycleh);
    push_str(out, ";\nconstexpr uint32_t CSR_MINSTRET  = 0x");
    push_hex(out, csr_minstret);
    push_str(out, ";\nconstexpr uint32_t CSR_MINSTRETH = 0x");
    push_hex(out, csr_minstreth);
    push_str(out, ";\n\n/* RISC-V division special values */\nconstexpr uint32_t RV_DIV_BY_ZERO = UINT32_MAX;\nconstexpr int32_t  RV_INT32_MIN   = INT32_MIN;\n\n");
}

/// `x` followed by the architecture, memory, entry point and CSR constants.
pub open spec fn constants_text(x: Seq<char>, xlen: int, memory_bits: int, entry_point: int, csr_misa: int, csr_cycle: int, csr_cycleh: int, csr_instret: int, csr_instreth: int, csr_mcycle: int, csr_mcycleh: int, csr_minstret: int, csr_minstreth: int) -> Seq<char> {
    constants_text_2(constants_text_1(x, xlen, memory_bits, entry_point, csr_misa, csr_cycle, csr_cycleh, csr_instret, csr_instreth, csr_mcycle, csr_mcycleh, csr_minstret, csr_minstreth), xlen, memory_bits, entry_point, csr_misa, csr_cycle, csr_cycleh, csr_instret, csr_instreth, csr_mcycle, csr_mcycleh, csr_minstret, csr_minstreth)
}

fn push_constants_text(out: &mut String, xlen: u64, memory_bits: u64, entry_point: u64, csr_misa: u64, csr_cycle: u64, csr_cycleh: u64, csr_instret: u64, csr_instreth: u64, csr_mcycle: u64, csr_mcycleh: u64, csr_minstret: u64, csr_minstreth: u64)
    ensures
        final(out)@ == constants_text(old(out)@, xlen as int, memory_bits as int, entry_point as int, csr_misa as int, csr_cycle as int, csr_cycleh as int, csr_instret as int, csr_instreth as int, csr_mcycle as int, csr_mcycleh as int, csr_minstret as int, csr_minstreth as int),
{
    push_constants_text_1(out, xlen, memory_bits, entry_point, csr_misa, csr_cycle, csr_cycleh, csr_instret, csr_instreth, csr_mcycle, csr_mcycleh, csr_minstret, csr_minstreth);
    push_constants_text_2(out, xlen, memory_bits, entry_point, csr_misa, csr_cycle, csr_cycleh, csr_instret, csr_instreth, csr_mcycle, csr_mcycleh, csr_minstret, csr_minstreth);
}

/// `x` followed by the fixed state and memory address constants.
pub open spec fn fixed_addr_text(x: Seq<char>, state_addr: int, memory_addr: int) -> Seq<char> {
    x + "/* Fixed addresses for state and memory (requires runtime mapping) */\nconstexpr uint64_t RV_STATE_ADDR  = 0x"@ + hex(state_addr as nat) + "ull;\nconstexpr uint64_t RV_MEMORY_ADDR = 0x"@ + hex(memory_addr as nat) + "ull;\n\n"@
}

fn push_fixed_addr_text(out: &mut String, state_addr: u64, memory_addr: u64)
    ensures
        final(out)@ == fixed_addr_text(old(out)@, state_addr as int, memory_addr as int),
{
    push_str(out, "/* Fixed addresses for state and memory (requires runtime mapping) */\nconstexpr uint64_t RV_STATE_ADDR  = 0x");
    push_hex(out, state_addr);
    push_str(out, "ull;\nconstexpr uint64_t RV_MEMORY_ADDR = 0x");
    push_hex(out, memory_addr);
    push_str(out, "ull;\n\n");
}

/// The constants section of the header.
pub open spec fn constants_section(cfg: HeaderConfig) -> Seq<char> {
    let c = constants_text(
        seq![],
        cfg.xlen.bits() as int,
        cfg.memory_bits as int,
        cfg.entry_point as int,
        CSR_MISA as int,
        CSR_CYCLE as int,
        CSR_CYCLEH as int,
        CSR_INSTRET as int,
        CSR_INSTRETH as int,
        CSR_MCYCLE as int,
        CSR_MCYCLEH as int,
        CSR_MINSTRET as int,
        CSR_MINSTRETH as int,
    );
    match cfg.fixed_addresses {
        Some(f) => fixed_addr_text(c, f.state_addr as int, f.memory_addr as int),
        None => c,
    }
}

/// Architecture, memory, entry point and CSR constants, and the fixed
/// addresses when configured.
pub fn gen_constants(cfg: &HeaderConfig) -> (r: String)
    ensures
        r@ == constants_section(*cfg),
{
    let mut s = String::new();
    push_constants_text(
        &mut s,
        cfg.xlen.value() as u64,
        cfg.memory_bits as u64,
        cfg.entry_point,
        CSR_MISA as u64,
        CSR_CYCLE as u64,
        CSR_CYCLEH as u64,
        CSR_INSTRET as u64,
        CSR_INSTRETH as u64,
        CSR_MCYCLE as u64,
        CSR_MCYCLEH as u64,
        CSR_MINSTRET as u64,
        CSR_MINSTRETH as u64,
    );
    match cfg.fixed_addresses {
        Some(fixed) => push_fixed_addr_text(&mut s, fixed.state_addr, fixed.memory_addr),
        None => {},
    }
    s
}

} // verus!
