use vstd::prelude::*;

use super::{expand_template, expanded_text, rtype_of, HeaderConfig};
use crate::config::InstretMode;
use crate::signature::{reg_type, STATE_FIXED_REF};

verus! {

/// Traced memory, register and CSR helpers, with `@NAME@` placeholders.
pub const TRACE_TEMPLATE: &'static str = r#"/* Traced memory read helpers - call optimized base functions. */
__attribute__((hot, nonnull, always_inline))
static inline uint32_t trd_mem_u8(Tracer* t, @ADDR_TYPE@ pc, uint16_t op, @MEM_PARAM@@ADDR_TYPE@ base, int16_t off) {
    uint32_t val = rd_mem_u8(@MEM_ARG@base, off);
    trace_mem_read_byte(t, pc, op, phys_addr(base) + off, (uint8_t)val);
    return val;
}

__attribute__((hot, nonnull, always_inline))
static inline int32_t trd_mem_i8(Tracer* t, @ADDR_TYPE@ pc, uint16_t op, @MEM_PARAM@@ADDR_TYPE@ base, int16_t off) {
    int32_t val = rd_mem_i8(@MEM_ARG@base, off);
    trace_mem_read_byte(t, pc, op, phys_addr(base) + off, (uint8_t)val);
    return val;
}

__attribute__((hot, nonnull, always_inline))
static inline uint32_t trd_mem_u16(Tracer* t, @ADDR_TYPE@ pc, uint16_t op, @MEM_PARAM@@ADDR_TYPE@ base, int16_t off) {
    uint32_t val = rd_mem_u16(@MEM_ARG@base, off);
    trace_mem_read_halfword(t, pc, op, phys_addr(base) + off, (uint16_t)val);
    return val;
}

__attribute__((hot, nonnull, always_inline))
static inline int32_t trd_mem_i16(Tracer* t, @ADDR_TYPE@ pc, uint16_t op, @MEM_PARAM@@ADDR_TYPE@ base, int16_t off) {
    int32_t val = rd_mem_i16(@MEM_ARG@base, off);
    trace_mem_read_halfword(t, pc, op, phys_addr(base) + off, (uint16_t)val);
    return val;
}

__attribute__((hot, nonnull, always_inline))
static inline uint32_t trd_mem_u32(Tracer* t, @ADDR_TYPE@ pc, uint16_t op, @MEM_PARAM@@ADDR_TYPE@ base, int16_t off) {
    uint32_t val = rd_mem_u32(@MEM_ARG@base, off);
    trace_mem_read_word(t, pc, op, phys_addr(base) + off, val);
    return val;
}

__attribute__((hot, nonnull, always_inline))
static inline int64_t trd_mem_i32(Tracer* t, @ADDR_TYPE@ pc, uint16_t op, @MEM_PARAM@@ADDR_TYPE@ base, int16_t off) {
    int64_t val = rd_mem_i32(@MEM_ARG@base, off);
    trace_mem_read_word(t, pc, op, phys_addr(base) + off, (uint32_t)val);
    return val;
}

__attribute__((hot, nonnull, always_inline))
static inline uint64_t trd_mem_u64(Tracer* t, @ADDR_TYPE@ pc, uint16_t op, @MEM_PARAM@@ADDR_TYPE@ base, int16_t off) {
    uint64_t val = rd_mem_u64(@MEM_ARG@base, off);
    trace_mem_read_dword(t, pc, op, phys_addr(base) + off, val);
    return val;
}

/* Traced memory write helpers - call optimized base functions. */
__attribute__((hot, nonnull, always_inline))
static inline void twr_mem_u8(Tracer* t, @ADDR_TYPE@ pc, uint16_t op, @MEM_PARAM@@ADDR_TYPE@ base, int16_t off, uint32_t val) {
    trace_mem_write_byte(t, pc, op, phys_addr(base) + off, (uint8_t)val);
    wr_mem_u8(@MEM_ARG@base, off, val);
}

__attribute__((hot, nonnull, always_inline))
static inline void twr_mem_u16(Tracer* t, @ADDR_TYPE@ pc, uint16_t op, @MEM_PARAM@@ADDR_TYPE@ base, int16_t off, uint32_t val) {
    trace_mem_write_halfword(t, pc, op, phys_addr(base) + off, (uint16_t)val);
    wr_mem_u16(@MEM_ARG@base, off, val);
}

__attribute__((hot, nonnull, always_inline))
static inline void twr_mem_u32(Tracer* t, @ADDR_TYPE@ pc, uint16_t op, @MEM_PARAM@@ADDR_TYPE@ base, int16_t off, uint32_t val) {
    trace_mem_write_word(t, pc, op, phys_addr(base) + off, val);
    wr_mem_u32(@MEM_ARG@base, off, val);
}

__attribute__((hot, nonnull, always_inline))
static inline void twr_mem_u64(Tracer* t, @ADDR_TYPE@ pc, uint16_t op, @MEM_PARAM@@ADDR_TYPE@ base, int16_t off, uint64_t val) {
    trace_mem_write_dword(t, pc, op, phys_addr(base) + off, val);
    wr_mem_u64(@MEM_ARG@base, off, val);
}

/* Traced register helpers - call trace functions */
__attribute__((hot, nonnull, always_inline))
static inline @RTYPE@ trd_reg(Tracer* t, @ADDR_TYPE@ pc, uint16_t op, @STATE_PARAM@uint8_t reg) {
    @RTYPE@ val = @STATE_REF@->regs[reg];
    trace_reg_read(t, pc, op, reg, val);
    return val;
}

__attribute__((hot, nonnull, always_inline))
static inline void twr_reg(Tracer* t, @ADDR_TYPE@ pc, uint16_t op, @STATE_PARAM@uint8_t reg, @RTYPE@ val) {
    trace_reg_write(t, pc, op, reg, val);
    @STATE_REF@->regs[reg] = val;
}

/* Traced hot register helpers - for registers in local vars/args */
__attribute__((hot, always_inline))
static inline @RTYPE@ trd_regval(Tracer* t, @ADDR_TYPE@ pc, uint16_t op, uint8_t reg, @RTYPE@ val) {
    trace_reg_read(t, pc, op, reg, val);
    return val;
}

__attribute__((hot, always_inline))
static inline @RTYPE@ twr_regval(Tracer* t, @ADDR_TYPE@ pc, uint16_t op, uint8_t reg, @RTYPE@ val) {
    trace_reg_write(t, pc, op, reg, val);
    return val;
}

/* Traced CSR access - call trace functions */
__attribute__((hot, nonnull))
static inline @RTYPE@ trd_csr(Tracer* t, @ADDR_TYPE@ pc, uint16_t op, @STATE_PARAM@uint16_t csr@INSTRET_PARAM@) {
    @RTYPE@ val = rd_csr(@STATE_ARG@csr@INSTRET_ARG@);
    trace_csr_read(t, pc, op, csr, val);
    return val;
}

__attribute__((hot, nonnull))
static inline void twr_csr(Tracer* t, @ADDR_TYPE@ pc, uint16_t op, @STATE_PARAM@uint16_t csr, @RTYPE@ val) {
    trace_csr_write(t, pc, op, csr, val);
    wr_csr(@STATE_ARG@csr, val);
}
"#;

/// The placeholder replacements of the trace helpers for a configuration.
pub open spec fn trace_replacements(cfg: HeaderConfig) -> Seq<(Seq<char>, Seq<char>)> {
    let counts = cfg.instret_mode != InstretMode::Off;
    let fixed = cfg.fixed_addresses.is_some();
    seq![
        ("@RTYPE@"@, rtype_of(cfg.xlen)),
        ("@ADDR_TYPE@"@, rtype_of(cfg.xlen)),
        ("@MEM_PARAM@"@, if fixed { ""@ } else { "uint8_t* restrict memory, "@ }),
        ("@MEM_ARG@"@, if fixed { ""@ } else { "memory, "@ }),
        ("@STATE_PARAM@"@, if fixed { ""@ } else { "RvState* restrict s, "@ }),
        ("@STATE_ARG@"@, if fixed { ""@ } else { "s, "@ }),
        ("@STATE_REF@"@, if fixed { STATE_FIXED_REF@ } else { "s"@ }),
        ("@INSTRET_PARAM@"@, if counts { ", uint64_t instret"@ } else { ""@ }),
        ("@INSTRET_ARG@"@, if counts { ", instret"@ } else { ""@ }),
    ]
}

/// Traced memory, register and CSR helpers.
pub fn gen_trace_helpers(cfg: &HeaderConfig) -> (r: String)
    ensures
        r@ == expanded_text(TRACE_TEMPLATE@, trace_replacements(*cfg)),
{
    let rtype = reg_type(cfg.xlen);
    let addr_type = reg_type(cfg.xlen);
    let counts = cfg.instret_mode.counts();
    let instret_param = if counts {
        ", uint64_t instret"
    } else {
        ""
    };
    let instret_arg = if counts {
        ", instret"
    } else {
        ""
    };
    let (mem_param, mem_arg, state_param, state_arg, state_ref) = if cfg.fixed_addresses.is_some() {
        ("", "", "", "", STATE_FIXED_REF)
    } else {
        ("uint8_t* restrict memory, ", "memory, ", "RvState* restrict s, ", "s, ", "s")
    };
    let mut reps: Vec<(&str, &str)> = Vec::new();
    reps.push(("@RTYPE@", rtype));
    reps.push(("@ADDR_TYPE@", addr_type));
    reps.push(("@MEM_PARAM@", mem_param));
    reps.push(("@MEM_ARG@", mem_arg));
    reps.push(("@STATE_PARAM@", state_param));
    reps.push(("@STATE_ARG@", state_arg));
    reps.push(("@STATE_REF@", state_ref));
    reps.push(("@INSTRET_PARAM@", instret_param));
    reps.push(("@INSTRET_ARG@", instret_arg));
    proof {
        reveal_strlit("@RTYPE@");
        reveal_strlit("@ADDR_TYPE@");
        reveal_strlit("@MEM_PARAM@");
        reveal_strlit("@MEM_ARG@");
        reveal_strlit("@STATE_PARAM@");
        reveal_strlit("@STATE_ARG@");
        reveal_strlit("@STATE_REF@");
        reveal_strlit("@INSTRET_PARAM@");
        reveal_strlit("@INSTRET_ARG@");
        assert(reps@.map_values(|p: (&str, &str)| (p.0@, p.1@)) =~= trace_replacements(*cfg));
    }
    expand_template(TRACE_TEMPLATE, reps.as_slice())
}

} // verus!
