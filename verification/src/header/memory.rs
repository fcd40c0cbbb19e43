use vstd::prelude::*;

use super::{rtype_of, HeaderConfig};
use crate::config::AddressMode;
use crate::signature::{reg_type, MEMORY_FIXED_REF};
use crate::text::{decimal, push_decimal, push_str, string_of};

verus! {

/// Address translation body when addresses are assumed valid.
pub const UNCHECKED_BODY: &'static str = "    __builtin_assume(addr <= RV_MEMORY_MASK);\n    return addr;";

/// Address translation body when addresses wrap at the memory size.
pub const WRAP_BODY: &'static str = "    return addr & RV_MEMORY_MASK;";

/// `x` followed by the bounds-checking address translation body.
pub open spec fn bounds_body_text(x: Seq<char>, bits: int) -> Seq<char> {
    x + "    if (unlikely((int"@ + decimal(bits as nat) + "_t)(addr << ("@ + decimal(bits as nat) + " - MEMORY_BITS)) >> ("@ + decimal(bits as nat) + " - MEMORY_BITS) != (int"@ + decimal(bits as nat) + "_t)addr)) __builtin_trap();\n    __builtin_assume(addr <= RV_MEMORY_MASK);\n    return addr & RV_MEMORY_MASK;"@
}

fn push_bounds_body_text(out: &mut String, bits: u64)
    ensures
        final(out)@ == bounds_body_text(old(out)@, bits as int),
{
    push_str(out, "    if (unlikely((int");
    push_decimal(out, bits as u64);
    push_str(out, "_t)(addr << (");
    push_decimal(out, bits as u64);
    push_str(out, " - MEMORY_BITS)) >> (");
    push_decimal(out, bits as u64);
    push_str(out, " - MEMORY_BITS) != (int");
    push_decimal(out, bits as u64);
    push_str(out, "_t)addr)) __builtin_trap();\n    __builtin_assume(addr <= RV_MEMORY_MASK);\n    return addr & RV_MEMORY_MASK;");
}

/// `x` followed by the address translation and memory access functions (part 1 of 5).
pub open spec fn memory_fns_text_1(x: Seq<char>, addr_type: Seq<char>, phys_addr_body: Seq<char>, nonnull: Seq<char>, mem_param: Seq<char>, mem_ref: Seq<char>) -> Seq<char> {
    x + "/* Translate virtual address to physical. */\nstatic inline "@ + addr_type + " phys_addr("@ + addr_type + " addr) {\n"@ + phys_addr_body + "\n}\n\n/* Memory access: compute phys base first, then add offset. */\n__attribute__((hot, pure, "@ + nonnull + "always_inline))\nstatic inline uint32_t rd_mem_u8("@ + mem_param + addr_type + " base, int16_t off) {\n    uint8_t* phys = &"@ + mem_ref + "[phys_addr(base)];\n    return phys[off];\n}\n\n__attribute__((hot, pure, "@ + nonnull + "always_inline))\nstatic inline int32_t rd_mem_i8("@ + mem_param + addr_type + " base, int16_t off) {\n    uint8_t* phys = &"@ + mem_ref
}

/// `x` followed by the address translation and memory access functions (part 2 of 5).
pub open spec fn memory_fns_text_2(x: Seq<char>, addr_type: Seq<char>, phys_addr_body: Seq<char>, nonnull: Seq<char>, mem_param: Seq<char>, mem_ref: Seq<char>) -> Seq<char> {
    x + "[phys_addr(base)];\n    return (int8_t)phys[off];\n}\n\n__attribute__((hot, pure, "@ + nonnull + "always_inline))\nstatic inline uint32_t rd_mem_u16("@ + mem_param + addr_type + " base, int16_t off) {\n    uint8_t* phys = &"@ + mem_ref + "[phys_addr(base)];\n    const void* ptr = __builtin_assume_aligned(phys + off, 2);\n    uint16_t val;\n    memcpy(&val, ptr, sizeof(val));\n    return val;\n}\n\n__attribute__((hot, pure, "@ + nonnull + "always_inline))\nstatic inline int32_t rd_mem_i16("@ + mem_param + addr_type + " base, int16_t off) {\n    uint8_t* phys = &"@ + mem_ref + "[phys_addr(base)];\n    const void* ptr = __builtin_assume_aligned(phys + off, 2);\n    uint16_t val;\n    memcpy(&val, ptr, sizeof(val));\n    return (int16_t)val;\n}\n\n__attribute__((hot, pure, "@ + nonnull + "always_inline))\nstatic inline uint32_t rd_mem_u32("@ + mem_param + addr_type + " base, int16_t off) {\n    uint8_t* phys = &"@
}

/// `x` followed by the address translation and memory access functions (part 3 of 5).
pub open spec fn memory_fns_text_3(x: Seq<char>, addr_type: Seq<char>, phys_addr_body: Seq<char>, nonnull: Seq<char>, mem_param: Seq<char>, mem_ref: Seq<char>) -> Seq<char> {
    x + mem_ref + "[phys_addr(base)];\n    const void* ptr = __builtin_assume_aligned(phys + off, 4);\n    uint32_t val;\n    memcpy(&val, ptr, sizeof(val));\n    return val;\n}\n\n__attribute__((hot, pure, "@ + nonnull + "always_inline))\nstatic inline int64_t rd_mem_i32("@ + mem_param + addr_type + " base, int16_t off) {\n    uint8_t* phys = &"@ + mem_ref + "[phys_addr(base)];\n    const void* ptr = __builtin_assume_aligned(phys + off, 4);\n    uint32_t val;\n    memcpy(&val, ptr, sizeof(val));\n    return (int32_t)val;\n}\n\n__attribute__((hot, pure, "@ + nonnull + "always_inline))\nstatic inline uint64_t rd_mem_u64("@ + mem_param + addr_type + " base, int16_t off) {\n    uint8_t* phys = &"@ + mem_ref + "[phys_addr(base)];\n    const void* ptr = __builtin_assume_aligned(phys + off, 8);\n    uint64_t val;\n    memcpy(&val, ptr, sizeof(val));\n    return val;\n}\n\n__attribute__((hot, "@ + nonnull + "always_inline))\nstatic inline void wr_mem_u8("@ + mem_param + addr_type
}

/// `x` followed by the address translation and memory access functions (part 4 of 5).
pub open spec fn memory_fns_text_4(x: Seq<char>, addr_type: Seq<char>, phys_addr_body: Seq<char>, nonnull: Seq<char>, mem_param: Seq<char>, mem_ref: Seq<char>) -> Seq<char> {
    x + " base, int16_t off, uint32_t val) {\n    uint8_t* phys = &"@ + mem_ref + "[phys_addr(base)];\n    phys[off] = (uint8_t)val;\n}\n\n__attribute__((hot, "@ + nonnull + "always_inline))\nstatic inline void wr_mem_u16("@ + mem_param + addr_type + " base, int16_t off, uint32_t val) {\n    uint8_t* phys = &"@ + mem_ref + "[phys_addr(base)];\n    void* ptr = __builtin_assume_aligned(phys + off, 2);\n    memcpy(ptr, &val, 2);\n}\n\n__attribute__((hot, "@ + nonnull + "always_inline))\nstatic inline void wr_mem_u32("@ + mem_param + addr_type + " base, int16_t off, uint32_t val) {\n    uint8_t* phys = &"@ + mem_ref + "[phys_addr(base)];\n    void* ptr = __builtin_assume_aligned(phys + off, 4);\n    memcpy(ptr, &val, sizeof(val));\n}\n\n__attribute__((hot, "@ + nonnull + "always_inline))\nstatic inline void wr_mem_u64("@ + mem_param
}

/// `x` followed by the address translation and memory access functions (part 5 of 5).
pub open spec fn memory_fns_text_5(x: Seq<char>, addr_type: Seq<char>, phys_addr_body: Seq<char>, nonnull: Seq<char>, mem_param: Seq<char>, mem_ref: Seq<char>) -> Seq<char> {
    x + addr_type + " base, int16_t off, uint64_t val) {\n    uint8_t* phys = &"@ + mem_ref + "[phys_addr(base)];\n    void* ptr = __builtin_assume_aligned(phys + off, 8);\n    memcpy(ptr, &val, sizeof(val));\n}\n\n"@
}

fn push_memory_fns_text_1(out: &mut String, addr_type: &str, phys_addr_body: &str, nonnull: &str, mem_param: &str, mem_ref: &str)
    ensures
        final(out)@ == memory_fns_text_1(old(out)@, addr_type@, phys_addr_body@, nonnull@, mem_param@, mem_ref@),
{
    push_str(out, "/* Translate virtual address to physical. */\nstatic inline ");
    push_str(out, addr_type);
    push_str(out, " phys_addr(");
    push_str(out, addr_type);
    push_str(out, " addr) {\n");
    push_str(out, phys_addr_body);
    push_str(out, "\n}\n\n/* Memory access: compute phys base first, then add offset. */\n__attribute__((hot, pure, ");
    push_str(out, nonnull);
    push_str(out, "always_inline))\nstatic inline uint32_t rd_mem_u8(");
    push_str(out, mem_param);
    push_str(out, addr_type);
    push_str(out, " base, int16_t off) {\n    uint8_t* phys = &");
    push_str(out, mem_ref);
    push_str(out, "[phys_addr(base)];\n    return phys[off];\n}\n\n__attribute__((hot, pure, ");
    push_str(out, nonnull);
    push_str(out, "always_inline))\nstatic inline int32_t rd_mem_i8(");
    push_str(out, mem_param);
    push_str(out, addr_type);
    push_str(out, " base, int16_t off) {\n    uint8_t* phys = &");
    push_str(out, mem_ref);
}

fn push_memory_fns_text_2(out: &mut String, addr_type: &str, phys_addr_body: &str, nonnull: &str, mem_param: &str, mem_ref: &str)
    ensures
        final(out)@ == memory_fns_text_2(old(out)@, addr_type@, phys_addr_body@, nonnull@, mem_param@, mem_ref@),
{
    push_str(out, "[phys_addr(base)];\n    return (int8_t)phys[off];\n}\n\n__attribute__((hot, pure, ");
    push_str(out, nonnull);
    push_str(out, "always_inline))\nstatic inline uint32_t rd_mem_u16(");
    push_str(out, mem_param);
    push_str(out, addr_type);
    push_str(out, " base, int16_t off) {\n    uint8_t* phys = &");
    push_str(out, mem_ref);
    push_str(out, "[phys_addr(base)];\n    const void* ptr = __builtin_assume_aligned(phys + off, 2);\n    uint16_t val;\n    memcpy(&val, ptr, sizeof(val));\n    return val;\n}\n\n__attribute__((hot, pure, ");
    push_str(out, nonnull);
    push_str(out, "always_inline))\nstatic inline int32_t rd_mem_i16(");
    push_str(out, mem_param);
    push_str(out, addr_type);
    push_str(out, " base, int16_t off) {\n    uint8_t* phys = &");
    push_str(out, mem_ref);
    push_str(out, "[phys_addr(base)];\n    const void* ptr = __builtin_assume_aligned(phys + off, 2);\n    uint16_t val;\n    memcpy(&val, ptr, sizeof(val));\n    return (int16_t)val;\n}\n\n__attribute__((hot, pure, ");
    push_str(out, nonnull);
    push_str(out, "always_inline))\nstatic inline uint32_t rd_mem_u32(");
    push_str(out, mem_param);
    push_str(out, addr_type);
    push_str(out, " base, int16_t off) {\n    uint8_t* phys = &");
}

fn push_memory_fns_text_3(out: &mut String, addr_type: &str, phys_addr_body: &str, nonnull: &str, mem_param: &str, mem_ref: &str)
    ensures
        final(out)@ == memory_fns_text_3(old(out)@, addr_type@, phys_addr_body@, nonnull@, mem_param@, mem_ref@),
{
    push_str(out, mem_ref);
    push_str(out, "[phys_addr(base)];\n    const void* ptr = __builtin_assume_aligned(phys + off, 4);\n    uint32_t val;\n    memcpy(&val, ptr, sizeof(val));\n    return val;\n}\n\n__attribute__((hot, pure, ");
    push_str(out, nonnull);
    push_str(out, "always_inline))\nstatic inline int64_t rd_mem_i32(");
    push_str(out, mem_param);
    push_str(out, addr_type);
    push_str(out, " base, int16_t off) {\n    uint8_t* phys = &");
    push_str(out, mem_ref);
    push_str(out, "[phys_addr(base)];\n    const void* ptr = __builtin_assume_aligned(phys + off, 4);\n    uint32_t val;\n    memcpy(&val, ptr, sizeof(val));\n    return (int32_t)val;\n}\n\n__attribute__((hot, pure, ");
    push_str(out, nonnull);
    push_str(out, "always_inline))\nstatic inline uint64_t rd_mem_u64(");
    push_str(out, mem_param);
    push_str(out, addr_type);
    push_str(out, " base, int16_t off) {\n    uint8_t* phys = &");
    push_str(out, mem_ref);
    push_str(out, "[phys_addr(base)];\n    const void* ptr = __builtin_assume_aligned(phys + off, 8);\n    uint64_t val;\n    memcpy(&val, ptr, sizeof(val));\n    return val;\n}\n\n__attribute__((hot, ");
    push_str(out, nonnull);
    push_str(out, "always_inline))\nstatic inline void wr_mem_u8(");
    push_str(out, mem_param);
    push_str(out, addr_type);
}

fn push_memory_fns_text_4(out: &mut String, addr_type: &str, phys_addr_body: &str, nonnull: &str, mem_param: &str, mem_ref: &str)
    ensures
        final(out)@ == memory_fns_text_4(old(out)@, addr_type@, phys_addr_body@, nonnull@, mem_param@, mem_ref@),
{
    push_str(out, " base, int16_t off, uint32_t val) {\n    uint8_t* phys = &");
    push_str(out, mem_ref);
    push_str(out, "[phys_addr(base)];\n    phys[off] = (uint8_t)val;\n}\n\n__attribute__((hot, ");
    push_str(out, nonnull);
    push_str(out, "always_inline))\nstatic inline void wr_mem_u16(");
    push_str(out, mem_param);
    push_str(out, addr_type);
    push_str(out, " base, int16_t off, uint32_t val) {\n    uint8_t* phys = &");
    push_str(out, mem_ref);
    push_str(out, "[phys_addr(base)];\n    void* ptr = __builtin_assume_aligned(phys + off, 2);\n    memcpy(ptr, &val, 2);\n}\n\n__attribute__((hot, ");
    push_str(out, nonnull);
    push_str(out, "always_inline))\nstatic inline void wr_mem_u32(");
    push_str(out, mem_param);
    push_str(out, addr_type);
    push_str(out, " base, int16_t off, uint32_t val) {\n    uint8_t* phys = &");
    push_str(out, mem_ref);
    push_str(out, "[phys_addr(base)];\n    void* ptr = __builtin_assume_aligned(phys + off, 4);\n    memcpy(ptr, &val, sizeof(val));\n}\n\n__attribute__((hot, ");
    push_str(out, nonnull);
    push_str(out, "always_inline))\nstatic inline void wr_mem_u64(");
    push_str(out, mem_param);
}

fn push_memory_fns_text_5(out: &mut String, addr_type: &str, phys_addr_body: &str, nonnull: &str, mem_param: &str, mem_ref: &str)
    ensures
        final(out)@ == memory_fns_text_5(old(out)@, addr_type@, phys_addr_body@, nonnull@, mem_param@, mem_ref@),
{
    push_str(out, addr_type);
    push_str(out, " base, int16_t off, uint64_t val) {\n    uint8_t* phys = &");
    push_str(out, mem_ref);
    push_str(out, "[phys_addr(base)];\n    void* ptr = __builtin_assume_aligned(phys + off, 8);\n    memcpy(ptr, &val, sizeof(val));\n}\n\n");
}

/// `x` followed by the address translation and memory access functions.
pub open spec fn memory_fns_text(x: Seq<char>, addr_type: Seq<char>, phys_addr_body: Seq<char>, nonnull: Seq<char>, mem_param: Seq<char>, mem_ref: Seq<char>) -> Seq<char> {
    memory_fns_text_5(memory_fns_text_4(memory_fns_text_3(memory_fns_text_2(memory_fns_text_1(x, addr_type, phys_addr_body, nonnull, mem_param, mem_ref), addr_type, phys_addr_body, nonnull, mem_param, mem_ref), addr_type, phys_addr_body, nonnull, mem_param, mem_ref), addr_type, phys_addr_body, nonnull, mem_param, mem_ref), addr_type, phys_addr_body, nonnull, mem_param, mem_ref)
}

fn push_memory_fns_text(out: &mut String, addr_type: &str, phys_addr_body: &str, nonnull: &str, mem_param: &str, mem_ref: &str)
    ensures
        final(out)@ == memory_fns_text(old(out)@, addr_type@, phys_addr_body@, nonnull@, mem_param@, mem_ref@),
{
    push_memory_fns_text_1(out, addr_type, phys_addr_body, nonnull, mem_param, mem_ref);
    push_memory_fns_text_2(out, addr_type, phys_addr_body, nonnull, mem_param, mem_ref);
    push_memory_fns_text_3(out, addr_type, phys_addr_body, nonnull, mem_param, mem_ref);
    push_memory_fns_text_4(out, addr_type, phys_addr_body, nonnull, mem_param, mem_ref);
    push_memory_fns_text_5(out, addr_type, phys_addr_body, nonnull, mem_param, mem_ref);
}

/// The body of `phys_addr` for an address mode.
pub open spec fn phys_addr_body_text(mode: AddressMode, bits: int) -> Seq<char> {
    if mode == AddressMode::Unchecked {
        UNCHECKED_BODY@
    } else if mode == AddressMode::Bounds {
        bounds_body_text(seq![], bits)
    } else {
        WRAP_BODY@
    }
}

/// The memory section of the header.
pub open spec fn memory_section(cfg: HeaderConfig) -> Seq<char> {
    let fixed = cfg.fixed_addresses.is_some();
    memory_fns_text(
        seq![],
        rtype_of(cfg.xlen),
        phys_addr_body_text(cfg.address_mode, cfg.xlen.bits() as int),
        if fixed {
            ""@
        } else {
            "nonnull, "@
        },
        if fixed {
            ""@
        } else {
            "uint8_t* restrict memory, "@
        },
        if fixed {
            MEMORY_FIXED_REF@
        } else {
            "memory"@
        },
    )
}

/// Address translation by address mode, and the memory read and write
/// accessors.
pub fn gen_memory_functions(cfg: &HeaderConfig) -> (r: String)
    ensures
        r@ == memory_section(*cfg),
{
    let addr_type = reg_type(cfg.xlen);
    let mode = cfg.address_mode;
    let phys_addr_body = if mode.assumes_valid() {
        string_of(UNCHECKED_BODY)
    } else if mode.needs_bounds_check() {
        let mut b = String::new();
        push_bounds_body_text(&mut b, cfg.xlen.value() as u64);
        b
    } else {
        string_of(WRAP_BODY)
    };
    let fixed = cfg.fixed_addresses.is_some();
    let (mem_param, mem_ref, nonnull) = if fixed {
        ("", MEMORY_FIXED_REF, "")
    } else {
        ("uint8_t* restrict memory, ", "memory", "nonnull, ")
    };
    let mut s = String::new();
    push_memory_fns_text(&mut s, addr_type, phys_addr_body.as_str(), nonnull, mem_param, mem_ref);
    s
}

} // verus!
