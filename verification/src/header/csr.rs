use vstd::prelude::*;

use super::{rtype_of, HeaderConfig};
use crate::config::InstretMode;
use crate::signature::{reg_type, STATE_FIXED_REF};
use crate::text::{push_str, string_of};

verus! {

/// Division helpers with RISC-V semantics.
pub const CSR_DIV_HELPERS: &'static str = r#"/* Division helpers with RISC-V semantics */
static inline uint32_t rv_div(int32_t a, int32_t b) {
    if (b == 0) return RV_DIV_BY_ZERO;
    if (a == RV_INT32_MIN && b == -1) return (uint32_t)RV_INT32_MIN;
    return (uint32_t)(a / b);
}

static inline uint32_t rv_divu(uint32_t a, uint32_t b) {
    if (b == 0) return RV_DIV_BY_ZERO;
    return a / b;
}

static inline uint32_t rv_rem(int32_t a, int32_t b) {
    if (b == 0) return (uint32_t)a;
    if (a == RV_INT32_MIN && b == -1) return 0;
    return (uint32_t)(a % b);
}

static inline uint32_t rv_remu(uint32_t a, uint32_t b) {
    if (b == 0) return a;
    return a % b;
}

"#;

/// 64-bit division helpers.
pub const CSR_DIV64_HELPERS: &'static str = r#"/* 64-bit division helpers for RV64 */
static inline uint64_t rv_div64(int64_t a, int64_t b) {
    if (b == 0) return UINT64_MAX;
    if (a == INT64_MIN && b == -1) return (uint64_t)INT64_MIN;
    return (uint64_t)(a / b);
}

static inline uint64_t rv_divu64(uint64_t a, uint64_t b) {
    if (b == 0) return UINT64_MAX;
    return a / b;
}

static inline uint64_t rv_rem64(int64_t a, int64_t b) {
    if (b == 0) return (uint64_t)a;
    if (a == INT64_MIN && b == -1) return 0;
    return (uint64_t)(a % b);
}

static inline uint64_t rv_remu64(uint64_t a, uint64_t b) {
    if (b == 0) return a;
    return a % b;
}

"#;

/// Multiply-high helpers.
pub const CSR_MUL_HELPERS: &'static str = r#"/* Multiply-high helpers */
static inline uint32_t rv_mulh(int32_t a, int32_t b) {
    return (uint32_t)(((int64_t)a * (int64_t)b) >> 32);
}

static inline uint32_t rv_mulhsu(int32_t a, uint32_t b) {
    return (uint32_t)(((int64_t)a * (int64_t)(uint64_t)b) >> 32);
}

static inline uint32_t rv_mulhu(uint32_t a, uint32_t b) {
    return (uint32_t)(((uint64_t)a * (uint64_t)b) >> 32);
}

static inline uint64_t rv_mulh64(int64_t a, int64_t b) {
    __int128 prod = (__int128)a * (__int128)b;
    return (uint64_t)(prod >> 64);
}

static inline uint64_t rv_mulhsu64(int64_t a, uint64_t b) {
    __int128 prod = (__int128)a * (__int128)b;
    return (uint64_t)(prod >> 64);
}

static inline uint64_t rv_mulhu64(uint64_t a, uint64_t b) {
    unsigned __int128 prod = (unsigned __int128)a * (unsigned __int128)b;
    return (uint64_t)(prod >> 64);
}

"#;

/// RV64 word-width division helpers.
pub const CSR_WORD_DIV_HELPERS: &'static str = r#"/* RV64 word-width division helpers */
static inline uint64_t rv_divw(int32_t a, int32_t b) {
    if (b == 0) return UINT64_MAX;
    if (a == INT32_MIN && b == -1) return (uint64_t)(int64_t)INT32_MIN;
    return (uint64_t)(int64_t)(a / b);
}

static inline uint64_t rv_divuw(uint32_t a, uint32_t b) {
    if (b == 0) return UINT64_MAX;
    return (uint64_t)(int64_t)(int32_t)(a / b);
}

static inline uint64_t rv_remw(int32_t a, int32_t b) {
    if (b == 0) return (uint64_t)(int64_t)a;
    if (a == INT32_MIN && b == -1) return 0;
    return (uint64_t)(int64_t)(a % b);
}

static inline uint64_t rv_remuw(uint32_t a, uint32_t b) {
    if (b == 0) return (uint64_t)(int64_t)(int32_t)a;
    return (uint64_t)(int64_t)(int32_t)(a % b);
}
"#;

/// `x` followed by the CSR read and write functions (part 1 of 2).
pub open spec fn csr_access_text_1(x: Seq<char>, rtype: Seq<char>, instret_param: Seq<char>, state_param_rd: Seq<char>, state_param_wr: Seq<char>, state_ref: Seq<char>, nonnull: Seq<char>, instret_val: Seq<char>) -> Seq<char> {
    x + "/* CSR access */\n__attribute__((hot, pure, "@ + nonnull + "always_inline))\nstatic inline "@ + rtype + " rd_csr("@ + state_param_rd + "uint32_t csr"@ + instret_param + ") {\n    switch (csr) {\n        case CSR_MCYCLE:\n        case CSR_CYCLE:\n        case CSR_MINSTRET:\n        case CSR_INSTRET:\n            return ("@ + rtype + ")("@ + instret_val + ");\n        case CSR_MCYCLEH:\n        case CSR_CYCLEH:\n        case CSR_MINSTRETH:\n        case CSR_INSTRETH:\n            return ("@ + rtype
}

/// `x` followed by the CSR read and write functions (part 2 of 2).
pub open spec fn csr_access_text_2(x: Seq<char>, rtype: Seq<char>, instret_param: Seq<char>, state_param_rd: Seq<char>, state_param_wr: Seq<char>, state_ref: Seq<char>, nonnull: Seq<char>, instret_val: Seq<char>) -> Seq<char> {
    x + ")("@ + instret_val + ") >> 32);\n        default:\n            return "@ + state_ref + "->csrs[csr];\n    }\n}\n\n__attribute__((hot, "@ + nonnull + "always_inline))\nstatic inline void wr_csr("@ + state_param_wr + "uint32_t csr, "@ + rtype + " val) {\n    switch (csr) {\n        case CSR_MCYCLE:\n        case CSR_MCYCLEH:\n        case CSR_MINSTRET:\n        case CSR_MINSTRETH:\n        case CSR_CYCLE:\n        case CSR_CYCLEH:\n        case CSR_INSTRET:\n        case CSR_INSTRETH:\n            return;\n        default:\n            "@ + state_ref + "->csrs[csr] = val;\n    }\n}\n\n"@
}

fn push_csr_access_text_1(out: &mut String, rtype: &str, instret_param: &str, state_param_rd: &str, state_param_wr: &str, state_ref: &str, nonnull: &str, instret_val: &str)
    ensures
        final(out)@ == csr_access_text_1(old(out)@, rtype@, instret_param@, state_param_rd@, state_param_wr@, state_ref@, nonnull@, instret_val@),
{
    push_str(out, "/* CSR access */\n__attribute__((hot, pure, ");
    push_str(out, nonnull);
    push_str(out, "always_inline))\nstatic inline ");
    push_str(out, rtype);
    push_str(out, " rd_csr(");
    push_str(out, state_param_rd);
    push_str(out, "uint32_t csr");
    push_str(out, instret_param);
    push_str(out, ") {\n    switch (csr) {\n        case CSR_MCYCLE:\n        case CSR_CYCLE:\n        case CSR_MINSTRET:\n        case CSR_INSTRET:\n            return (");
    push_str(out, rtype);
    push_str(out, ")(");
    push_str(out, instret_val);
    push_str(out, ");\n        case CSR_MCYCLEH:\n        case CSR_CYCLEH:\n        case CSR_MINSTRETH:\n        case CSR_INSTRETH:\n            return (");
    push_str(out, rtype);
}

fn push_csr_access_text_2(out: &mut String, rtype: &str, instret_param: &str, state_param_rd: &str, state_param_wr: &str, state_ref: &str, nonnull: &str, instret_val: &str)
    ensures
        final(out)@ == csr_access_text_2(old(out)@, rtype@, instret_param@, state_param_rd@, state_param_wr@, state_ref@, nonnull@, instret_val@),
{
    push_str(out, ")(");
    push_str(out, instret_val);
    push_str(out, ") >> 32);\n        default:\n            return ");
    push_str(out, state_ref);
    push_str(out, "->csrs[csr];\n    }\n}\n\n__attribute__((hot, ");
    push_str(out, nonnull);
    push_str(out, "always_inline))\nstatic inline void wr_csr(");
    push_str(out, state_param_wr);
    push_str(out, "uint32_t csr, ");
    push_str(out, rtype);
    push_str(out, " val) {\n    switch (csr) {\n        case CSR_MCYCLE:\n        case CSR_MCYCLEH:\n        case CSR_MINSTRET:\n        case CSR_MINSTRETH:\n        case CSR_CYCLE:\n        case CSR_CYCLEH:\n        case CSR_INSTRET:\n        case CSR_INSTRETH:\n            return;\n        default:\n            ");
    push_str(out, state_ref);
    push_str(out, "->csrs[csr] = val;\n    }\n}\n\n");
}

/// `x` followed by the CSR read and write functions.
pub open spec fn csr_access_text(x: Seq<char>, rtype: Seq<char>, instret_param: Seq<char>, state_param_rd: Seq<char>, state_param_wr: Seq<char>, state_ref: Seq<char>, nonnull: Seq<char>, instret_val: Seq<char>) -> Seq<char> {
    csr_access_text_2(csr_access_text_1(x, rtype, instret_param, state_param_rd, state_param_wr, state_ref, nonnull, instret_val), rtype, instret_param, state_param_rd, state_param_wr, state_ref, nonnull, instret_val)
}

fn push_csr_access_text(out: &mut String, rtype: &str, instret_param: &str, state_param_rd: &str, state_param_wr: &str, state_ref: &str, nonnull: &str, instret_val: &str)
    ensures
        final(out)@ == csr_access_text(old(out)@, rtype@, instret_param@, state_param_rd@, state_param_wr@, state_ref@, nonnull@, instret_val@),
{
    push_csr_access_text_1(out, rtype, instret_param, state_param_rd, state_param_wr, state_ref, nonnull, instret_val);
    push_csr_access_text_2(out, rtype, instret_param, state_param_rd, state_param_wr, state_ref, nonnull, instret_val);
}

/// Arguments of the CSR access functions.
pub struct CsrHeaderArgs<'a> {
    pub rtype: &'a str,
    pub instret_param: &'a str,
    pub state_param_rd: &'a str,
    pub state_param_wr: &'a str,
    pub state_ref: &'a str,
    pub nonnull: &'a str,
    pub instret_val: &'a str,
}

/// Append the CSR read and write functions.
pub fn push_csr_header(out: &mut String, args: &CsrHeaderArgs)
    ensures
        final(out)@ == csr_access_text(
            old(out)@,
            args.rtype@,
            args.instret_param@,
            args.state_param_rd@,
            args.state_param_wr@,
            args.state_ref@,
            args.nonnull@,
            args.instret_val@,
        ),
{
    push_csr_access_text(
        out,
        args.rtype,
        args.instret_param,
        args.state_param_rd,
        args.state_param_wr,
        args.state_ref,
        args.nonnull,
        args.instret_val,
    );
}

/// The CSR section of the header.
pub open spec fn csr_section(cfg: HeaderConfig) -> Seq<char> {
    let counts = cfg.instret_mode != InstretMode::Off;
    let fixed = cfg.fixed_addresses.is_some();
    csr_access_text(
        seq![],
        rtype_of(cfg.xlen),
        if counts {
            ", uint64_t instret"@
        } else {
            ""@
        },
        if fixed {
            ""@
        } else {
            "const RvState* restrict s, "@
        },
        if fixed {
            ""@
        } else {
            "RvState* restrict s, "@
        },
        if fixed {
            STATE_FIXED_REF@
        } else {
            "s"@
        },
        if fixed {
            ""@
        } else {
            "nonnull, "@
        },
        if counts {
            "instret"@
        } else if fixed {
            STATE_FIXED_REF@ + "->instret"@
        } else {
            "s->instret"@
        },
    ) + CSR_DIV_HELPERS@ + CSR_DIV64_HELPERS@ + CSR_MUL_HELPERS@ + CSR_WORD_DIV_HELPERS@
}

/// CSR access functions and the division and multiply-high helpers.
pub fn gen_csr_functions(cfg: &HeaderConfig) -> (r: String)
    ensures
        r@ == csr_section(*cfg),
{
    let rtype = reg_type(cfg.xlen);
    let counts = cfg.instret_mode.counts();
    let instret_param = if counts {
        ", uint64_t instret"
    } else {
        ""
    };
    let fixed = cfg.fixed_addresses.is_some();
    let instret_val = if counts {
        string_of("instret")
    } else if fixed {
        let mut v = string_of(STATE_FIXED_REF);
        push_str(&mut v, "->instret");
        v
    } else {
        string_of("s->instret")
    };
    let (state_param_rd, state_param_wr, state_ref, nonnull) = if fixed {
        ("", "", STATE_FIXED_REF, "")
    } else {
        ("const RvState* restrict s, ", "RvState* restrict s, ", "s", "nonnull, ")
    };
    let mut out = String::new();
    let args = CsrHeaderArgs {
        rtype,
        instret_param,
        state_param_rd,
        state_param_wr,
        state_ref,
        nonnull,
        instret_val: instret_val.as_str(),
    };
    push_csr_header(&mut out, &args);
    push_str(&mut out, CSR_DIV_HELPERS);
    push_str(&mut out, CSR_DIV64_HELPERS);
    push_str(&mut out, CSR_MUL_HELPERS);
    push_str(&mut out, CSR_WORD_DIV_HELPERS);
    out
}

} // verus!
