//! Built-in tracer headers: the C `Tracer` struct and the trace hooks that
//! the generated code calls, for the FFI, debug, dynamic, Spike-format and
//! buffered diff tracers.

use vstd::prelude::*;

use crate::config::Xlen;
use crate::header::{expand_template, expanded_text, rtype_of};
use crate::signature::reg_type;
use crate::text::push_str;

verus! {

/// `x` followed by the FFI tracer header (a pointer to an external tracer, extern hooks) (part 1 of 3).
pub open spec fn ffi_tracer_text_1(x: Seq<char>, rtype: Seq<char>) -> Seq<char> {
    x + "/* FFI tracer - pointer to external tracer, calls extern functions.\n *\n * The actual tracer lives externally. This struct holds a pointer to it.\n * Extern functions take Tracer* and access ->inner to get the actual tracer.\n */\n#pragma once\n\n#include <stdint.h>\n\n/* Tracer holds a pointer to the external tracer */\ntypedef struct Tracer {\n    void* inner;\n} Tracer;\n\n/* Extern declarations - implemented externally, take Tracer* */\nextern void trace_init(Tracer* tracer);\nextern void trace_fini(Tracer* tracer);\n\n/* Block entry */\nextern void trace_block(Tracer* tracer, "@ + rtype + " pc);\n\n/* Instruction dispatch */\nextern void trace_pc(Tracer* tracer, "@ + rtype + " pc, uint16_t op);\nextern void trace_opcode(Tracer* tracer, "@ + rtype + " pc, uint16_t op, uint32_t opcode);\n\n/* Register access */\nextern void trace_reg_read(Tracer* tracer, "@ + rtype + " pc, uint16_t op, uint8_t reg, "@ + rtype + " value);\nextern void trace_reg_write(Tracer* tracer, "@ + rtype + " pc, uint16_t op, uint8_t reg, "@ + rtype + " value);\n\n/* Memory reads */\nextern void trace_mem_read_byte(Tracer* tracer, "@ + rtype + " pc, uint16_t op, "@ + rtype + " addr, uint8_t value);\nextern void trace_mem_read_halfword(Tracer* tracer, "@ + rtype + " pc, uint16_t op, "@ + rtype + " addr, uint16_t value);\nextern void trace_mem_read_word(Tracer* tracer, "@ + rtype
}

/// `x` followed by the FFI tracer header (a pointer to an external tracer, extern hooks) (part 2 of 3).
pub open spec fn ffi_tracer_text_2(x: Seq<char>, rtype: Seq<char>) -> Seq<char> {
    x + " pc, uint16_t op, "@ + rtype + " addr, uint32_t value);\nextern void trace_mem_read_dword(Tracer* tracer, "@ + rtype + " pc, uint16_t op, "@ + rtype + " addr, uint64_t value);\n\n/* Memory writes */\nextern void trace_mem_write_byte(Tracer* tracer, "@ + rtype + " pc, uint16_t op, "@ + rtype + " addr, uint8_t value);\nextern void trace_mem_write_halfword(Tracer* tracer, "@ + rtype + " pc, uint16_t op, "@ + rtype + " addr, uint16_t value);\nextern void trace_mem_write_word(Tracer* tracer, "@ + rtype + " pc, uint16_t op, "@ + rtype + " addr, uint32_t value);\nextern void trace_mem_write_dword(Tracer* tracer, "@ + rtype + " pc, uint16_t op, "@ + rtype + " addr, uint64_t value);\n\n/* Control flow */\nextern void trace_branch_taken(Tracer* tracer, "@ + rtype
}

/// `x` followed by the FFI tracer header (a pointer to an external tracer, extern hooks) (part 3 of 3).
pub open spec fn ffi_tracer_text_3(x: Seq<char>, rtype: Seq<char>) -> Seq<char> {
    x + " pc, uint16_t op, "@ + rtype + " target);\nextern void trace_branch_not_taken(Tracer* tracer, "@ + rtype + " pc, uint16_t op, "@ + rtype + " target);\n\n/* CSR access */\nextern void trace_csr_read(Tracer* tracer, "@ + rtype + " pc, uint16_t op, uint16_t csr, "@ + rtype + " value);\nextern void trace_csr_write(Tracer* tracer, "@ + rtype + " pc, uint16_t op, uint16_t csr, "@ + rtype + " value);\n"@
}

fn push_ffi_tracer_text_1(out: &mut String, rtype: &str)
    ensures
        final(out)@ == ffi_tracer_text_1(old(out)@, rtype@),
{
    push_str(out, "/* FFI tracer - pointer to external tracer, calls extern functions.\n *\n * The actual tracer lives externally. This struct holds a pointer to it.\n * Extern functions take Tracer* and access ->inner to get the actual tracer.\n */\n#pragma once\n\n#include <stdint.h>\n\n/* Tracer holds a pointer to the external tracer */\ntypedef struct Tracer {\n    void* inner;\n} Tracer;\n\n/* Extern declarations - implemented externally, take Tracer* */\nextern void trace_init(Tracer* tracer);\nextern void trace_fini(Tracer* tracer);\n\n/* Block entry */\nextern void trace_block(Tracer* tracer, ");
    push_str(out, rtype);
    push_str(out, " pc);\n\n/* Instruction dispatch */\nextern void trace_pc(Tracer* tracer, ");
    push_str(out, rtype);
    push_str(out, " pc, uint16_t op);\nextern void trace_opcode(Tracer* tracer, ");
    push_str(out, rtype);
    push_str(out, " pc, uint16_t op, uint32_t opcode);\n\n/* Register access */\nextern void trace_reg_read(Tracer* tracer, ");
    push_str(out, rtype);
    push_str(out, " pc, uint16_t op, uint8_t reg, ");
    push_str(out, rtype);
    push_str(out, " value);\nextern void trace_reg_write(Tracer* tracer, ");
    push_str(out, rtype);
    push_str(out, " pc, uint16_t op, uint8_t reg, ");
    push_str(out, rtype);
    push_str(out, " value);\n\n/* Memory reads */\nextern void trace_mem_read_byte(Tracer* tracer, ");
    push_str(out, rtype);
    push_str(out, " pc, uint16_t op, ");
    push_str(out, rtype);
    push_str(out, " addr, uint8_t value);\nextern void trace_mem_read_halfword(Tracer* tracer, ");
    push_str(out, rtype);
    push_str(out, " pc, uint16_t op, ");
    push_str(out, rtype);
    push_str(out, " addr, uint16_t value);\nextern void trace_mem_read_word(Tracer* tracer, ");
    push_str(out, rtype);
}

fn push_ffi_tracer_text_2(out: &mut String, rtype: &str)
    ensures
        final(out)@ == ffi_tracer_text_2(old(out)@, rtype@),
{
    push_str(out, " pc, uint16_t op, ");
    push_str(out, rtype);
    push_str(out, " addr, uint32_t value);\nextern void trace_mem_read_dword(Tracer* tracer, ");
    push_str(out, rtype);
    push_str(out, " pc, uint16_t op, ");
    push_str(out, rtype);
    push_str(out, " addr, uint64_t value);\n\n/* Memory writes */\nextern void trace_mem_write_byte(Tracer* tracer, ");
    push_str(out, rtype);
    push_str(out, " pc, uint16_t op, ");
    push_str(out, rtype);
    push_str(out, " addr, uint8_t value);\nextern void trace_mem_write_halfword(Tracer* tracer, ");
    push_str(out, rtype);
    push_str(out, " pc, uint16_t op, ");
    push_str(out, rtype);
    push_str(out, " addr, uint16_t value);\nextern void trace_mem_write_word(Tracer* tracer, ");
    push_str(out, rtype);
    push_str(out, " pc, uint16_t op, ");
    push_str(out, rtype);
    push_str(out, " addr, uint32_t value);\nextern void trace_mem_write_dword(Tracer* tracer, ");
    push_str(out, rtype);
    push_str(out, " pc, uint16_t op, ");
    push_str(out, rtype);
    push_str(out, " addr, uint64_t value);\n\n/* Control flow */\nextern void trace_branch_taken(Tracer* tracer, ");
    push_str(out, rtype);
}

fn push_ffi_tracer_text_3(out: &mut String, rtype: &str)
    ensures
        final(out)@ == ffi_tracer_text_3(old(out)@, rtype@),
{
    push_str(out, " pc, uint16_t op, ");
    push_str(out, rtype);
    push_str(out, " target);\nextern void trace_branch_not_taken(Tracer* tracer, ");
    push_str(out, rtype);
    push_str(out, " pc, uint16_t op, ");
    push_str(out, rtype);
    push_str(out, " target);\n\n/* CSR access */\nextern void trace_csr_read(Tracer* tracer, ");
    push_str(out, rtype);
    push_str(out, " pc, uint16_t op, uint16_t csr, ");
    push_str(out, rtype);
    push_str(out, " value);\nextern void trace_csr_write(Tracer* tracer, ");
    push_str(out, rtype);
    push_str(out, " pc, uint16_t op, uint16_t csr, ");
    push_str(out, rtype);
    push_str(out, " value);\n");
}

/// `x` followed by the FFI tracer header (a pointer to an external tracer, extern hooks).
pub open spec fn ffi_tracer_text(x: Seq<char>, rtype: Seq<char>) -> Seq<char> {
    ffi_tracer_text_3(ffi_tracer_text_2(ffi_tracer_text_1(x, rtype), rtype), rtype)
}

fn push_ffi_tracer_text(out: &mut String, rtype: &str)
    ensures
        final(out)@ == ffi_tracer_text(old(out)@, rtype@),
{
    push_ffi_tracer_text_1(out, rtype);
    push_ffi_tracer_text_2(out, rtype);
    push_ffi_tracer_text_3(out, rtype);
}

/// Generate the FFI tracer header.
pub fn gen_tracer_ffi(xlen: Xlen) -> (r: String)
    ensures
        r@ == ffi_tracer_text(seq![], rtype_of(xlen)),
{
    let mut s = String::new();
    push_ffi_tracer_text(&mut s, reg_type(xlen));
    s
}

/// `x` followed by the debug tracer header (prints each pc to stderr) (part 1 of 3).
pub open spec fn debug_tracer_text_1(x: Seq<char>, rtype: Seq<char>) -> Seq<char> {
    x + "/* Debug tracer - writes PCs to /tmp/rvr_trace.txt for comparison. */\n#pragma once\n\n#include <stdint.h>\n#include <stdio.h>\n\ntypedef struct Tracer {\n    FILE* fp;\n    uint64_t pcs;\n} Tracer;\n\nstatic inline void trace_init(Tracer* t) {\n    if (!t) return;\n    t->fp = fopen(\"/tmp/rvr_trace.txt\", \"w\");\n    t->pcs = 0;\n}\n\nstatic inline void trace_fini(Tracer* t) {\n    if (!t) return;\n    fprintf(stderr, \"DEBUG: traced %llu PCs\\n\", (unsigned long long)t->pcs);\n    if (t->fp) {\n        fclose(t->fp);\n        t->fp = NULL;\n    }\n}\n\n/* Block entry */\nstatic inline void trace_block(Tracer* t, "@ + rtype + " pc) {\n    (void)t;\n    (void)pc;\n}\n\n/* Instruction dispatch */\nstatic inline void trace_pc(Tracer* t, "@ + rtype + " pc, uint16_t op) {\n    (void)op;\n    t->pcs++;\n    if (t->fp && t->pcs <= 100000) {\n        fprintf(t->fp, \"%x\\n\", (unsigned)pc);\n    }\n}\n\nstatic inline void trace_opcode(Tracer* t, "@ + rtype + " pc, uint16_t op, uint32_t opcode) {\n    (void)t; (void)pc; (void)op; (void)opcode;\n}\n\n/* Register access */\nstatic inline void trace_reg_read(Tracer* t, "@ + rtype + " pc, uint16_t op, uint8_t reg, "@ + rtype + " value) {\n    (void)t; (void)pc; (void)op; (void)reg; (void)value;\n}\nstatic inline void trace_reg_write(Tracer* t, "@ + rtype + " pc, uint16_t op, uint8_t reg, "@ + rtype + " value) {\n    (void)t; (void)pc; (void)op; (void)reg; (void)value;\n}\n\n/* Memory reads */\nstatic inline void trace_mem_read_byte(Tracer* t, "@ + rtype + " pc, uint16_t op, "@ + rtype + " addr, uint8_t value) {\n    (void)t; (void)pc; (void)op; (void)addr; (void)value;\n}\nstatic inline void trace_mem_read_halfword(Tracer* t, "@ + rtype + " pc, uint16_t op, "@ + rtype + " addr, uint16_t value) {\n    (void)t; (void)pc; (void)op; (void)addr; (void)value;\n}\nstatic inline void trace_mem_read_word(Tracer* t, "@ + rtype
}

/// `x` followed by the debug tracer header (prints each pc to stderr) (part 2 of 3).
pub open spec fn debug_tracer_text_2(x: Seq<char>, rtype: Seq<char>) -> Seq<char> {
    x + " pc, uint16_t op, "@ + rtype + " addr, uint32_t value) {\n    (void)t; (void)pc; (void)op; (void)addr; (void)value;\n}\nstatic inline void trace_mem_read_dword(Tracer* t, "@ + rtype + " pc, uint16_t op, "@ + rtype + " addr, uint64_t value) {\n    (void)t; (void)pc; (void)op; (void)addr; (void)value;\n}\n\n/* Memory writes */\nstatic inline void trace_mem_write_byte(Tracer* t, "@ + rtype + " pc, uint16_t op, "@ + rtype + " addr, uint8_t value) {\n    (void)t; (void)pc; (void)op; (void)addr; (void)value;\n}\nstatic inline void trace_mem_write_halfword(Tracer* t, "@ + rtype + " pc, uint16_t op, "@ + rtype + " addr, uint16_t value) {\n    (void)t; (void)pc; (void)op; (void)addr; (void)value;\n}\nstatic inline void trace_mem_write_word(Tracer* t, "@ + rtype + " pc, uint16_t op, "@ + rtype + " addr, uint32_t value) {\n    (void)t; (void)pc; (void)op; (void)addr; (void)value;\n}\nstatic inline void trace_mem_write_dword(Tracer* t, "@ + rtype + " pc, uint16_t op, "@ + rtype + " addr, uint64_t value) {\n    (void)t; (void)pc; (void)op; (void)addr; (void)value;\n}\n\n/* Control flow */\nstatic inline void trace_branch_taken(Tracer* t, "@ + rtype
}

/// `x` followed by the debug tracer header (prints each pc to stderr) (part 3 of 3).
pub open spec fn debug_tracer_text_3(x: Seq<char>, rtype: Seq<char>) -> Seq<char> {
    x + " pc, uint16_t op, "@ + rtype + " target) {\n    (void)t; (void)pc; (void)op; (void)target;\n}\nstatic inline void trace_branch_not_taken(Tracer* t, "@ + rtype + " pc, uint16_t op, "@ + rtype + " target) {\n    (void)t; (void)pc; (void)op; (void)target;\n}\n\n/* CSR access */\nstatic inline void trace_csr_read(Tracer* t, "@ + rtype + " pc, uint16_t op, uint16_t csr, "@ + rtype + " value) {\n    (void)t; (void)pc; (void)op; (void)csr; (void)value;\n}\nstatic inline void trace_csr_write(Tracer* t, "@ + rtype + " pc, uint16_t op, uint16_t csr, "@ + rtype + " value) {\n    (void)t; (void)pc; (void)op; (void)csr; (void)value;\n}\n"@
}

fn push_debug_tracer_text_1(out: &mut String, rtype: &str)
    ensures
        final(out)@ == debug_tracer_text_1(old(out)@, rtype@),
{
    push_str(out, "/* Debug tracer - writes PCs to /tmp/rvr_trace.txt for comparison. */\n#pragma once\n\n#include <stdint.h>\n#include <stdio.h>\n\ntypedef struct Tracer {\n    FILE* fp;\n    uint64_t pcs;\n} Tracer;\n\nstatic inline void trace_init(Tracer* t) {\n    if (!t) return;\n    t->fp = fopen(\"/tmp/rvr_trace.txt\", \"w\");\n    t->pcs = 0;\n}\n\nstatic inline void trace_fini(Tracer* t) {\n    if (!t) return;\n    fprintf(stderr, \"DEBUG: traced %llu PCs\\n\", (unsigned long long)t->pcs);\n    if (t->fp) {\n        fclose(t->fp);\n        t->fp = NULL;\n    }\n}\n\n/* Block entry */\nstatic inline void trace_block(Tracer* t, ");
    push_str(out, rtype);
    push_str(out, " pc) {\n    (void)t;\n    (void)pc;\n}\n\n/* Instruction dispatch */\nstatic inline void trace_pc(Tracer* t, ");
    push_str(out, rtype);
    push_str(out, " pc, uint16_t op) {\n    (void)op;\n    t->pcs++;\n    if (t->fp && t->pcs <= 100000) {\n        fprintf(t->fp, \"%x\\n\", (unsigned)pc);\n    }\n}\n\nstatic inline void trace_opcode(Tracer* t, ");
    push_str(out, rtype);
    push_str(out, " pc, uint16_t op, uint32_t opcode) {\n    (void)t; (void)pc; (void)op; (void)opcode;\n}\n\n/* Register access */\nstatic inline void trace_reg_read(Tracer* t, ");
    push_str(out, rtype);
    push_str(out, " pc, uint16_t op, uint8_t reg, ");
    push_str(out, rtype);
    push_str(out, " value) {\n    (void)t; (void)pc; (void)op; (void)reg; (void)value;\n}\nstatic inline void trace_reg_write(Tracer* t, ");
    push_str(out, rtype);
    push_str(out, " pc, uint16_t op, uint8_t reg, ");
    push_str(out, rtype);
    push_str(out, " value) {\n    (void)t; (void)pc; (void)op; (void)reg; (void)value;\n}\n\n/* Memory reads */\nstatic inline void trace_mem_read_byte(Tracer* t, ");
    push_str(out, rtype);
    push_str(out, " pc, uint16_t op, ");
    push_str(out, rtype);
    push_str(out, " addr, uint8_t value) {\n    (void)t; (void)pc; (void)op; (void)addr; (void)value;\n}\nstatic inline void trace_mem_read_halfword(Tracer* t, ");
    push_str(out, rtype);
    push_str(out, " pc, uint16_t op, ");
    push_str(out, rtype);
    push_str(out, " addr, uint16_t value) {\n    (void)t; (void)pc; (void)op; (void)addr; (void)value;\n}\nstatic inline void trace_mem_read_word(Tracer* t, ");
    push_str(out, rtype);
}

fn push_debug_tracer_text_2(out: &mut String, rtype: &str)
    ensures
        final(out)@ == debug_tracer_text_2(old(out)@, rtype@),
{
    push_str(out, " pc, uint16_t op, ");
    push_str(out, rtype);
    push_str(out, " addr, uint32_t value) {\n    (void)t; (void)pc; (void)op; (void)addr; (void)value;\n}\nstatic inline void trace_mem_read_dword(Tracer* t, ");
    push_str(out, rtype);
    push_str(out, " pc, uint16_t op, ");
    push_str(out, rtype);
    push_str(out, " addr, uint64_t value) {\n    (void)t; (void)pc; (void)op; (void)addr; (void)value;\n}\n\n/* Memory writes */\nstatic inline void trace_mem_write_byte(Tracer* t, ");
    push_str(out, rtype);
    push_str(out, " pc, uint16_t op, ");
    push_str(out, rtype);
    push_str(out, " addr, uint8_t value) {\n    (void)t; (void)pc; (void)op; (void)addr; (void)value;\n}\nstatic inline void trace_mem_write_halfword(Tracer* t, ");
    push_str(out, rtype);
    push_str(out, " pc, uint16_t op, ");
    push_str(out, rtype);
    push_str(out, " addr, uint16_t value) {\n    (void)t; (void)pc; (void)op; (void)addr; (void)value;\n}\nstatic inline void trace_mem_write_word(Tracer* t, ");
    push_str(out, rtype);
    push_str(out, " pc, uint16_t op, ");
    push_str(out, rtype);
    push_str(out, " addr, uint32_t value) {\n    (void)t; (void)pc; (void)op; (void)addr; (void)value;\n}\nstatic inline void trace_mem_write_dword(Tracer* t, ");
    push_str(out, rtype);
    push_str(out, " pc, uint16_t op, ");
    push_str(out, rtype);
    push_str(out, " addr, uint64_t value) {\n    (void)t; (void)pc; (void)op; (void)addr; (void)value;\n}\n\n/* Control flow */\nstatic inline void trace_branch_taken(Tracer* t, ");
    push_str(out, rtype);
}

fn push_debug_tracer_text_3(out: &mut String, rtype: &str)
    ensures
        final(out)@ == debug_tracer_text_3(old(out)@, rtype@),
{
    push_str(out, " pc, uint16_t op, ");
    push_str(out, rtype);
    push_str(out, " target) {\n    (void)t; (void)pc; (void)op; (void)target;\n}\nstatic inline void trace_branch_not_taken(Tracer* t, ");
    push_str(out, rtype);
    push_str(out, " pc, uint16_t op, ");
    push_str(out, rtype);
    push_str(out, " target) {\n    (void)t; (void)pc; (void)op; (void)target;\n}\n\n/* CSR access */\nstatic inline void trace_csr_read(Tracer* t, ");
    push_str(out, rtype);
    push_str(out, " pc, uint16_t op, uint16_t csr, ");
    push_str(out, rtype);
    push_str(out, " value) {\n    (void)t; (void)pc; (void)op; (void)csr; (void)value;\n}\nstatic inline void trace_csr_write(Tracer* t, ");
    push_str(out, rtype);
    push_str(out, " pc, uint16_t op, uint16_t csr, ");
    push_str(out, rtype);
    push_str(out, " value) {\n    (void)t; (void)pc; (void)op; (void)csr; (void)value;\n}\n");
}

/// `x` followed by the debug tracer header (prints each pc to stderr).
pub open spec fn debug_tracer_text(x: Seq<char>, rtype: Seq<char>) -> Seq<char> {
    debug_tracer_text_3(debug_tracer_text_2(debug_tracer_text_1(x, rtype), rtype), rtype)
}

fn push_debug_tracer_text(out: &mut String, rtype: &str)
    ensures
        final(out)@ == debug_tracer_text(old(out)@, rtype@),
{
    push_debug_tracer_text_1(out, rtype);
    push_debug_tracer_text_2(out, rtype);
    push_debug_tracer_text_3(out, rtype);
}

/// Generate the debug tracer header.
pub fn gen_tracer_debug(xlen: Xlen) -> (r: String)
    ensures
        r@ == debug_tracer_text(seq![], rtype_of(xlen)),
{
    let mut s = String::new();
    push_debug_tracer_text(&mut s, reg_type(xlen));
    s
}

/// `x` followed by the dynamic tracer header (hooks through function pointers) (part 1 of 4).
pub open spec fn dynamic_tracer_text_1(x: Seq<char>, rtype: Seq<char>) -> Seq<char> {
    x + "/* Dynamic tracer - runtime function pointers.\n *\n * Tracer struct contains function pointers that can be set at runtime.\n */\n#pragma once\n\n#include <stdint.h>\n\n/* Function pointer types */\ntypedef void (*trace_init_fn)(void* tracer);\ntypedef void (*trace_fini_fn)(void* tracer);\ntypedef void (*trace_block_fn)(void* tracer, "@ + rtype + " pc);\ntypedef void (*trace_pc_fn)(void* tracer, "@ + rtype + " pc, uint16_t op);\ntypedef void (*trace_reg_fn)(void* tracer, "@ + rtype + " pc, uint16_t op, uint8_t reg, "@ + rtype + " value);\ntypedef void (*trace_mem_byte_fn)(void* tracer, "@ + rtype + " pc, uint16_t op, "@ + rtype + " addr, uint8_t value);\ntypedef void (*trace_mem_halfword_fn)(void* tracer, "@ + rtype + " pc, uint16_t op, "@ + rtype + " addr, uint16_t value);\ntypedef void (*trace_mem_word_fn)(void* tracer, "@ + rtype + " pc, uint16_t op, "@ + rtype + " addr, uint32_t value);\ntypedef void (*trace_mem_dword_fn)(void* tracer, "@ + rtype + " pc, uint16_t op, "@ + rtype
}

/// `x` followed by the dynamic tracer header (hooks through function pointers) (part 2 of 4).
pub open spec fn dynamic_tracer_text_2(x: Seq<char>, rtype: Seq<char>) -> Seq<char> {
    x + " addr, uint64_t value);\ntypedef void (*trace_branch_fn)(void* tracer, "@ + rtype + " pc, uint16_t op, "@ + rtype + " target);\ntypedef void (*trace_csr_fn)(void* tracer, "@ + rtype + " pc, uint16_t op, uint16_t csr, "@ + rtype + " value);\n\ntypedef struct Tracer {\n    void* inner;\n    trace_init_fn fn_init;\n    trace_fini_fn fn_fini;\n    trace_block_fn fn_block;\n    trace_pc_fn fn_pc;\n    trace_reg_fn fn_reg_read;\n    trace_reg_fn fn_reg_write;\n    trace_mem_byte_fn fn_mem_read_byte;\n    trace_mem_halfword_fn fn_mem_read_halfword;\n    trace_mem_word_fn fn_mem_read_word;\n    trace_mem_dword_fn fn_mem_read_dword;\n    trace_mem_byte_fn fn_mem_write_byte;\n    trace_mem_halfword_fn fn_mem_write_halfword;\n    trace_mem_word_fn fn_mem_write_word;\n    trace_mem_dword_fn fn_mem_write_dword;\n    trace_branch_fn fn_branch_taken;\n    trace_branch_fn fn_branch_not_taken;\n    trace_csr_fn fn_csr_read;\n    trace_csr_fn fn_csr_write;\n} Tracer;\n\nstatic inline void trace_init(Tracer* t) { if (t->fn_init) t->fn_init(t->inner); }\nstatic inline void trace_fini(Tracer* t) { if (t->fn_fini) t->fn_fini(t->inner); }\n\n/* Block entry */\nstatic inline void trace_block(Tracer* t, "@ + rtype + " pc) { if (t->fn_block) t->fn_block(t->inner, pc); }\n\n/* Instruction dispatch */\nstatic inline void trace_pc(Tracer* t, "@ + rtype + " pc, uint16_t op) { if (t->fn_pc) t->fn_pc(t->inner, pc, op); }\n\n/* Register access */\nstatic inline void trace_reg_read(Tracer* t, "@ + rtype + " pc, uint16_t op, uint8_t reg, "@ + rtype + " value) { if (t->fn_reg_read) t->fn_reg_read(t->inner, pc, op, reg, value); }\nstatic inline void trace_reg_write(Tracer* t, "@ + rtype + " pc, uint16_t op, uint8_t reg, "@ + rtype + " value) { if (t->fn_reg_write) t->fn_reg_write(t->inner, pc, op, reg, value); }\n\n/* Memory reads */\nstatic inline void trace_mem_read_byte(Tracer* t, "@ + rtype + " pc, uint16_t op, "@ + rtype
}

/// `x` followed by the dynamic tracer header (hooks through function pointers) (part 3 of 4).
pub open spec fn dynamic_tracer_text_3(x: Seq<char>, rtype: Seq<char>) -> Seq<char> {
    x + " addr, uint8_t value) { if (t->fn_mem_read_byte) t->fn_mem_read_byte(t->inner, pc, op, addr, value); }\nstatic inline void trace_mem_read_halfword(Tracer* t, "@ + rtype + " pc, uint16_t op, "@ + rtype + " addr, uint16_t value) { if (t->fn_mem_read_halfword) t->fn_mem_read_halfword(t->inner, pc, op, addr, value); }\nstatic inline void trace_mem_read_word(Tracer* t, "@ + rtype + " pc, uint16_t op, "@ + rtype + " addr, uint32_t value) { if (t->fn_mem_read_word) t->fn_mem_read_word(t->inner, pc, op, addr, value); }\nstatic inline void trace_mem_read_dword(Tracer* t, "@ + rtype + " pc, uint16_t op, "@ + rtype + " addr, uint64_t value) { if (t->fn_mem_read_dword) t->fn_mem_read_dword(t->inner, pc, op, addr, value); }\n\n/* Memory writes */\nstatic inline void trace_mem_write_byte(Tracer* t, "@ + rtype + " pc, uint16_t op, "@ + rtype + " addr, uint8_t value) { if (t->fn_mem_write_byte) t->fn_mem_write_byte(t->inner, pc, op, addr, value); }\nstatic inline void trace_mem_write_halfword(Tracer* t, "@ + rtype + " pc, uint16_t op, "@ + rtype + " addr, uint16_t value) { if (t->fn_mem_write_halfword) t->fn_mem_write_halfword(t->inner, pc, op, addr, value); }\nstatic inline void trace_mem_write_word(Tracer* t, "@ + rtype + " pc, uint16_t op, "@ + rtype
}

/// `x` followed by the dynamic tracer header (hooks through function pointers) (part 4 of 4).
pub open spec fn dynamic_tracer_text_4(x: Seq<char>, rtype: Seq<char>) -> Seq<char> {
    x + " addr, uint32_t value) { if (t->fn_mem_write_word) t->fn_mem_write_word(t->inner, pc, op, addr, value); }\nstatic inline void trace_mem_write_dword(Tracer* t, "@ + rtype + " pc, uint16_t op, "@ + rtype + " addr, uint64_t value) { if (t->fn_mem_write_dword) t->fn_mem_write_dword(t->inner, pc, op, addr, value); }\n\n/* Control flow */\nstatic inline void trace_branch_taken(Tracer* t, "@ + rtype + " pc, uint16_t op, "@ + rtype + " target) { if (t->fn_branch_taken) t->fn_branch_taken(t->inner, pc, op, target); }\nstatic inline void trace_branch_not_taken(Tracer* t, "@ + rtype + " pc, uint16_t op, "@ + rtype + " target) { if (t->fn_branch_not_taken) t->fn_branch_not_taken(t->inner, pc, op, target); }\n\n/* CSR access */\nstatic inline void trace_csr_read(Tracer* t, "@ + rtype + " pc, uint16_t op, uint16_t csr, "@ + rtype + " value) { if (t->fn_csr_read) t->fn_csr_read(t->inner, pc, op, csr, value); }\nstatic inline void trace_csr_write(Tracer* t, "@ + rtype + " pc, uint16_t op, uint16_t csr, "@ + rtype + " value) { if (t->fn_csr_write) t->fn_csr_write(t->inner, pc, op, csr, value); }\n"@
}

fn push_dynamic_tracer_text_1(out: &mut String, rtype: &str)
    ensures
        final(out)@ == dynamic_tracer_text_1(old(out)@, rtype@),
{
    push_str(out, "/* Dynamic tracer - runtime function pointers.\n *\n * Tracer struct contains function pointers that can be set at runtime.\n */\n#pragma once\n\n#include <stdint.h>\n\n/* Function pointer types */\ntypedef void (*trace_init_fn)(void* tracer);\ntypedef void (*trace_fini_fn)(void* tracer);\ntypedef void (*trace_block_fn)(void* tracer, ");
    push_str(out, rtype);
    push_str(out, " pc);\ntypedef void (*trace_pc_fn)(void* tracer, ");
    push_str(out, rtype);
    push_str(out, " pc, uint16_t op);\ntypedef void (*trace_reg_fn)(void* tracer, ");
    push_str(out, rtype);
    push_str(out, " pc, uint16_t op, uint8_t reg, ");
    push_str(out, rtype);
    push_str(out, " value);\ntypedef void (*trace_mem_byte_fn)(void* tracer, ");
    push_str(out, rtype);
    push_str(out, " pc, uint16_t op, ");
    push_str(out, rtype);
    push_str(out, " addr, uint8_t value);\ntypedef void (*trace_mem_halfword_fn)(void* tracer, ");
    push_str(out, rtype);
    push_str(out, " pc, uint16_t op, ");
    push_str(out, rtype);
    push_str(out, " addr, uint16_t value);\ntypedef void (*trace_mem_word_fn)(void* tracer, ");
    push_str(out, rtype);
    push_str(out, " pc, uint16_t op, ");
    push_str(out, rtype);
    push_str(out, " addr, uint32_t value);\ntypedef void (*trace_mem_dword_fn)(void* tracer, ");
    push_str(out, rtype);
    push_str(out, " pc, uint16_t op, ");
    push_str(out, rtype);
}

fn push_dynamic_tracer_text_2(out: &mut String, rtype: &str)
    ensures
        final(out)@ == dynamic_tracer_text_2(old(out)@, rtype@),
{
    push_str(out, " addr, uint64_t value);\ntypedef void (*trace_branch_fn)(void* tracer, ");
    push_str(out, rtype);
    push_str(out, " pc, uint16_t op, ");
    push_str(out, rtype);
    push_str(out, " target);\ntypedef void (*trace_csr_fn)(void* tracer, ");
    push_str(out, rtype);
    push_str(out, " pc, uint16_t op, uint16_t csr, ");
    push_str(out, rtype);
    push_str(out, " value);\n\ntypedef struct Tracer {\n    void* inner;\n    trace_init_fn fn_init;\n    trace_fini_fn fn_fini;\n    trace_block_fn fn_block;\n    trace_pc_fn fn_pc;\n    trace_reg_fn fn_reg_read;\n    trace_reg_fn fn_reg_write;\n    trace_mem_byte_fn fn_mem_read_byte;\n    trace_mem_halfword_fn fn_mem_read_halfword;\n    trace_mem_word_fn fn_mem_read_word;\n    trace_mem_dword_fn fn_mem_read_dword;\n    trace_mem_byte_fn fn_mem_write_byte;\n    trace_mem_halfword_fn fn_mem_write_halfword;\n    trace_mem_word_fn fn_mem_write_word;\n    trace_mem_dword_fn fn_mem_write_dword;\n    trace_branch_fn fn_branch_taken;\n    trace_branch_fn fn_branch_not_taken;\n    trace_csr_fn fn_csr_read;\n    trace_csr_fn fn_csr_write;\n} Tracer;\n\nstatic inline void trace_init(Tracer* t) { if (t->fn_init) t->fn_init(t->inner); }\nstatic inline void trace_fini(Tracer* t) { if (t->fn_fini) t->fn_fini(t->inner); }\n\n/* Block entry */\nstatic inline void trace_block(Tracer* t, ");
    push_str(out, rtype);
    push_str(out, " pc) { if (t->fn_block) t->fn_block(t->inner, pc); }\n\n/* Instruction dispatch */\nstatic inline void trace_pc(Tracer* t, ");
    push_str(out, rtype);
    push_str(out, " pc, uint16_t op) { if (t->fn_pc) t->fn_pc(t->inner, pc, op); }\n\n/* Register access */\nstatic inline void trace_reg_read(Tracer* t, ");
    push_str(out, rtype);
    push_str(out, " pc, uint16_t op, uint8_t reg, ");
    push_str(out, rtype);
    push_str(out, " value) { if (t->fn_reg_read) t->fn_reg_read(t->inner, pc, op, reg, value); }\nstatic inline void trace_reg_write(Tracer* t, ");
    push_str(out, rtype);
    push_str(out, " pc, uint16_t op, uint8_t reg, ");
    push_str(out, rtype);
    push_str(out, " value) { if (t->fn_reg_write) t->fn_reg_write(t->inner, pc, op, reg, value); }\n\n/* Memory reads */\nstatic inline void trace_mem_read_byte(Tracer* t, ");
    push_str(out, rtype);
    push_str(out, " pc, uint16_t op, ");
    push_str(out, rtype);
}

fn push_dynamic_tracer_text_3(out: &mut String, rtype: &str)
    ensures
        final(out)@ == dynamic_tracer_text_3(old(out)@, rtype@),
{
    push_str(out, " addr, uint8_t value) { if (t->fn_mem_read_byte) t->fn_mem_read_byte(t->inner, pc, op, addr, value); }\nstatic inline void trace_mem_read_halfword(Tracer* t, ");
    push_str(out, rtype);
    push_str(out, " pc, uint16_t op, ");
    push_str(out, rtype);
    push_str(out, " addr, uint16_t value) { if (t->fn_mem_read_halfword) t->fn_mem_read_halfword(t->inner, pc, op, addr, value); }\nstatic inline void trace_mem_read_word(Tracer* t, ");
    push_str(out, rtype);
    push_str(out, " pc, uint16_t op, ");
    push_str(out, rtype);
    push_str(out, " addr, uint32_t value) { if (t->fn_mem_read_word) t->fn_mem_read_word(t->inner, pc, op, addr, value); }\nstatic inline void trace_mem_read_dword(Tracer* t, ");
    push_str(out, rtype);
    push_str(out, " pc, uint16_t op, ");
    push_str(out, rtype);
    push_str(out, " addr, uint64_t value) { if (t->fn_mem_read_dword) t->fn_mem_read_dword(t->inner, pc, op, addr, value); }\n\n/* Memory writes */\nstatic inline void trace_mem_write_byte(Tracer* t, ");
    push_str(out, rtype);
    push_str(out, " pc, uint16_t op, ");
    push_str(out, rtype);
    push_str(out, " addr, uint8_t value) { if (t->fn_mem_write_byte) t->fn_mem_write_byte(t->inner, pc, op, addr, value); }\nstatic inline void trace_mem_write_halfword(Tracer* t, ");
    push_str(out, rtype);
    push_str(out, " pc, uint16_t op, ");
    push_str(out, rtype);
    push_str(out, " addr, uint16_t value) { if (t->fn_mem_write_halfword) t->fn_mem_write_halfword(t->inner, pc, op, addr, value); }\nstatic inline void trace_mem_write_word(Tracer* t, ");
    push_str(out, rtype);
    push_str(out, " pc, uint16_t op, ");
    push_str(out, rtype);
}

fn push_dynamic_tracer_text_4(out: &mut String, rtype: &str)
    ensures
        final(out)@ == dynamic_tracer_text_4(old(out)@, rtype@),
{
    push_str(out, " addr, uint32_t value) { if (t->fn_mem_write_word) t->fn_mem_write_word(t->inner, pc, op, addr, value); }\nstatic inline void trace_mem_write_dword(Tracer* t, ");
    push_str(out, rtype);
    push_str(out, " pc, uint16_t op, ");
    push_str(out, rtype);
    push_str(out, " addr, uint64_t value) { if (t->fn_mem_write_dword) t->fn_mem_write_dword(t->inner, pc, op, addr, value); }\n\n/* Control flow */\nstatic inline void trace_branch_taken(Tracer* t, ");
    push_str(out, rtype);
    push_str(out, " pc, uint16_t op, ");
    push_str(out, rtype);
    push_str(out, " target) { if (t->fn_branch_taken) t->fn_branch_taken(t->inner, pc, op, target); }\nstatic inline void trace_branch_not_taken(Tracer* t, ");
    push_str(out, rtype);
    push_str(out, " pc, uint16_t op, ");
    push_str(out, rtype);
    push_str(out, " target) { if (t->fn_branch_not_taken) t->fn_branch_not_taken(t->inner, pc, op, target); }\n\n/* CSR access */\nstatic inline void trace_csr_read(Tracer* t, ");
    push_str(out, rtype);
    push_str(out, " pc, uint16_t op, uint16_t csr, ");
    push_str(out, rtype);
    push_str(out, " value) { if (t->fn_csr_read) t->fn_csr_read(t->inner, pc, op, csr, value); }\nstatic inline void trace_csr_write(Tracer* t, ");
    push_str(out, rtype);
    push_str(out, " pc, uint16_t op, uint16_t csr, ");
    push_str(out, rtype);
    push_str(out, " value) { if (t->fn_csr_write) t->fn_csr_write(t->inner, pc, op, csr, value); }\n");
}

/// `x` followed by the dynamic tracer header (hooks through function pointers).
pub open spec fn dynamic_tracer_text(x: Seq<char>, rtype: Seq<char>) -> Seq<char> {
    dynamic_tracer_text_4(dynamic_tracer_text_3(dynamic_tracer_text_2(dynamic_tracer_text_1(x, rtype), rtype), rtype), rtype)
}

fn push_dynamic_tracer_text(out: &mut String, rtype: &str)
    ensures
        final(out)@ == dynamic_tracer_text(old(out)@, rtype@),
{
    push_dynamic_tracer_text_1(out, rtype);
    push_dynamic_tracer_text_2(out, rtype);
    push_dynamic_tracer_text_3(out, rtype);
    push_dynamic_tracer_text_4(out, rtype);
}

/// Generate the dynamic tracer header.
pub fn gen_tracer_dynamic(xlen: Xlen) -> (r: String)
    ensures
        r@ == dynamic_tracer_text(seq![], rtype_of(xlen)),
{
    let mut s = String::new();
    push_dynamic_tracer_text(&mut s, reg_type(xlen));
    s
}

/// The Spike-format tracer (`--log-commits` lines), with placeholders.
pub const SPIKE_TEMPLATE: &'static str = r#"/* Spike-compatible tracer - outputs in Spike's --log-commits format.
 *
 * Format: core   0: 3 0x<PC> (0x<OPCODE>) [x<RD> 0x<VALUE>] [mem 0x<ADDR>]
 *
 * Set RVR_TRACE_FILE environment variable to specify output file.
 * Default: /tmp/rvr_trace.log
 */
#pragma once

#include <stdint.h>
#include <stdio.h>
#include <stdlib.h>

typedef struct Tracer {{
    FILE* fp;
    @RTYPE@ pending_pc;
    uint32_t pending_opcode;
    uint8_t pending_rd;
    @RTYPE@ pending_rd_value;
    @RTYPE@ pending_mem_addr;
    uint8_t has_pending;
    uint8_t has_rd;
    uint8_t has_mem;
    uint64_t count;
}} Tracer;

static inline void trace_flush(Tracer* t) {{
    if (!t->has_pending || !t->fp) return;

    fprintf(t->fp, "core   0: 3 0x@PC_FMT@ (0x%08x)",
            @PC_CAST@t->pending_pc, (unsigned)t->pending_opcode);

    if (t->has_rd) {{
        fprintf(t->fp, " x%u 0x@VAL_FMT@",
                (unsigned)t->pending_rd, @VAL_CAST@t->pending_rd_value);
    }}

    if (t->has_mem) {{
        fprintf(t->fp, " mem 0x@VAL_FMT@", @VAL_CAST@t->pending_mem_addr);
    }}

    fprintf(t->fp, "\n");
    t->has_pending = 0;
    t->has_rd = 0;
    t->has_mem = 0;
}}

static inline void trace_init(Tracer* t) {{
    if (!t) return;
    const char* path = getenv("RVR_TRACE_FILE");
    if (!path) path = "/tmp/rvr_trace.log";
    t->fp = fopen(path, "w");
    t->has_pending = 0;
    t->has_rd = 0;
    t->has_mem = 0;
    t->count = 0;
}}

static inline void trace_fini(Tracer* t) {{
    if (!t) return;
    trace_flush(t);
    if (t->fp) {{
        fclose(t->fp);
        t->fp = NULL;
    }}
    fprintf(stderr, "spike-trace: %llu instructions traced\n", (unsigned long long)t->count);
}}

/* Block entry */
static inline void trace_block(Tracer* t, @RTYPE@ pc) {{
    (void)t; (void)pc;
}}

/* Instruction dispatch - flush previous, start new */
static inline void trace_pc(Tracer* t, @RTYPE@ pc, uint16_t op) {{
    (void)op;
    trace_flush(t);
    t->pending_pc = pc;
    t->pending_opcode = 0;
    t->has_pending = 1;
    t->has_rd = 0;
    t->has_mem = 0;
    t->count++;
}}

/* Opcode details */
static inline void trace_opcode(Tracer* t, @RTYPE@ pc, uint16_t op, uint32_t opcode) {{
    (void)pc; (void)op;
    t->pending_opcode = opcode;
}}

/* Register access */
static inline void trace_reg_read(Tracer* t, @RTYPE@ pc, uint16_t op, uint8_t reg, @RTYPE@ value) {{
    (void)t; (void)pc; (void)op; (void)reg; (void)value;
}}

static inline void trace_reg_write(Tracer* t, @RTYPE@ pc, uint16_t op, uint8_t reg, @RTYPE@ value) {{
    (void)pc; (void)op;
    if (reg != 0) {{
        t->pending_rd = reg;
        t->pending_rd_value = value;
        t->has_rd = 1;
    }}
}}

/* Memory reads */
static inline void trace_mem_read_byte(Tracer* t, @RTYPE@ pc, uint16_t op, @RTYPE@ addr, uint8_t value) {{
    (void)pc; (void)op; (void)value;
    t->pending_mem_addr = addr;
    t->has_mem = 1;
}}

static inline void trace_mem_read_halfword(Tracer* t, @RTYPE@ pc, uint16_t op, @RTYPE@ addr, uint16_t value) {{
    (void)pc; (void)op; (void)value;
    t->pending_mem_addr = addr;
    t->has_mem = 1;
}}

static inline void trace_mem_read_word(Tracer* t, @RTYPE@ pc, uint16_t op, @RTYPE@ addr, uint32_t value) {{
    (void)pc; (void)op; (void)value;
    t->pending_mem_addr = addr;
    t->has_mem = 1;
}}

static inline void trace_mem_read_dword(Tracer* t, @RTYPE@ pc, uint16_t op, @RTYPE@ addr, uint64_t value) {{
    (void)pc; (void)op; (void)value;
    t->pending_mem_addr = addr;
    t->has_mem = 1;
}}

/* Memory writes */
static inline void trace_mem_write_byte(Tracer* t, @RTYPE@ pc, uint16_t op, @RTYPE@ addr, uint8_t value) {{
    (void)pc; (void)op; (void)value;
    t->pending_mem_addr = addr;
    t->has_mem = 1;
}}

static inline void trace_mem_write_halfword(Tracer* t, @RTYPE@ pc, uint16_t op, @RTYPE@ addr, uint16_t value) {{
    (void)pc; (void)op; (void)value;
    t->pending_mem_addr = addr;
    t->has_mem = 1;
}}

static inline void trace_mem_write_word(Tracer* t, @RTYPE@ pc, uint16_t op, @RTYPE@ addr, uint32_t value) {{
    (void)pc; (void)op; (void)value;
    t->pending_mem_addr = addr;
    t->has_mem = 1;
}}

static inline void trace_mem_write_dword(Tracer* t, @RTYPE@ pc, uint16_t op, @RTYPE@ addr, uint64_t value) {{
    (void)pc; (void)op; (void)value;
    t->pending_mem_addr = addr;
    t->has_mem = 1;
}}

/* Control flow */
static inline void trace_branch_taken(Tracer* t, @RTYPE@ pc, uint16_t op, @RTYPE@ target) {{
    (void)t; (void)pc; (void)op; (void)target;
}}

static inline void trace_branch_not_taken(Tracer* t, @RTYPE@ pc, uint16_t op, @RTYPE@ target) {{
    (void)t; (void)pc; (void)op; (void)target;
}}

/* CSR access */
static inline void trace_csr_read(Tracer* t, @RTYPE@ pc, uint16_t op, uint16_t csr, @RTYPE@ value) {{
    (void)t; (void)pc; (void)op; (void)csr; (void)value;
}}

static inline void trace_csr_write(Tracer* t, @RTYPE@ pc, uint16_t op, uint16_t csr, @RTYPE@ value) {{
    (void)t; (void)pc; (void)op; (void)csr; (void)value;
}}
"#;

/// The buffered diff tracer (a ring of per-instruction records), with placeholders.
pub const BUFFERED_DIFF_TEMPLATE: &'static str = r#"/* Buffered diff tracer - captures N instruction states for block-level comparison.
 *
 * Uses a ring buffer of DiffEntry structs. On overflow, oldest entries are overwritten
 * and `dropped` is incremented. After block execution, Rust reads the buffer.
 *
 * Layout must match Rust's BufferedDiffTracer and DiffEntry structs exactly.
 */
#pragma once

#include <stdint.h>

/* Single instruction's captured state - must match Rust DiffEntry layout */
typedef struct DiffEntry {{
    @RTYPE@ pc;              // Program counter
    uint32_t opcode;         // Raw instruction bits
    uint8_t rd;              // Destination register (0 = none/x0)
    uint8_t has_rd;          // Non-zero if register was written
    uint8_t has_mem;         // Non-zero if memory was accessed
    uint8_t is_write;        // 1 = store, 0 = load
    @RTYPE@ rd_value;        // Value written to rd
    @RTYPE@ mem_addr;        // Address accessed
    @RTYPE@ mem_value;       // Value read or written
    uint8_t mem_width;       // Access width: 1/2/4/8 bytes
    uint8_t _pad[7];         // Padding to align struct
}} DiffEntry;

/* Tracer state - ring buffer of entries */
typedef struct Tracer {{
    DiffEntry* buffer;       // Ring buffer (allocated by Rust)
    uint32_t capacity;       // Buffer size
    uint32_t head;           // Next write position
    uint32_t count;          // Number of valid entries (saturates at capacity)
    uint32_t dropped;        // Number of entries dropped due to overflow
    // Current instruction being built (finalized on next trace_pc)
    DiffEntry current;
    uint8_t current_valid;   // Non-zero if current has data
    uint8_t _pad[7];
}} Tracer;

/* Initialize tracer - called before execution */
static inline void trace_init(Tracer* t) {{
    if (!t) return;
    t->head = 0;
    t->count = 0;
    t->dropped = 0;
    t->current_valid = 0;
}}

/* Finalize tracer - flush any pending entry */
static inline void trace_fini(Tracer* t) {{
    if (!t || !t->current_valid || !t->buffer) return;
    // Flush current entry to buffer
    uint32_t idx = t->head;
    t->buffer[idx] = t->current;
    t->head = (t->head + 1) % t->capacity;
    if (t->count < t->capacity) {{
        t->count++;
    }} else {{
        t->dropped++;
    }}
    t->current_valid = 0;
}}

/* Block entry (no-op) */
static inline void trace_block(Tracer* t, @RTYPE@ pc) {{
    (void)t; (void)pc;
}}

/* Instruction dispatch - finalize previous entry, start new one */
static inline void trace_pc(Tracer* t, @RTYPE@ pc, uint16_t op) {{
    (void)op;
    if (!t || !t->buffer) return;

    // Finalize previous entry if any
    if (t->current_valid) {{
        uint32_t idx = t->head;
        t->buffer[idx] = t->current;
        t->head = (t->head + 1) % t->capacity;
        if (t->count < t->capacity) {{
            t->count++;
        }} else {{
            t->dropped++;
        }}
    }}

    // Start new entry
    t->current.pc = pc;
    t->current.opcode = 0;
    t->current.rd = 0;
    t->current.has_rd = 0;
    t->current.has_mem = 0;
    t->current.is_write = 0;
    t->current.rd_value = 0;
    t->current.mem_addr = 0;
    t->current.mem_value = 0;
    t->current.mem_width = 0;
    t->current_valid = 1;
}}

/* Record opcode */
static inline void trace_opcode(Tracer* t, @RTYPE@ pc, uint16_t op, uint32_t opcode) {{
    (void)pc; (void)op;
    if (!t) return;
    t->current.opcode = opcode;
}}

/* Register reads (not tracked) */
static inline void trace_reg_read(Tracer* t, @RTYPE@ pc, uint16_t op, uint8_t reg, @RTYPE@ value) {{
    (void)t; (void)pc; (void)op; (void)reg; (void)value;
}}

/* Register write - record destination and value (ignore x0) */
static inline void trace_reg_write(Tracer* t, @RTYPE@ pc, uint16_t op, uint8_t reg, @RTYPE@ value) {{
    (void)pc; (void)op;
    if (!t) return;
    if (reg != 0) {{
        t->current.rd = reg;
        t->current.rd_value = value;
        t->current.has_rd = 1;
    }}
}}

/* Memory reads */
static inline void trace_mem_read_byte(Tracer* t, @RTYPE@ pc, uint16_t op, @RTYPE@ addr, uint8_t value) {{
    (void)pc; (void)op;
    if (!t) return;
    t->current.mem_addr = addr;
    t->current.mem_value = value;
    t->current.mem_width = 1;
    t->current.is_write = 0;
    t->current.has_mem = 1;
}}

static inline void trace_mem_read_halfword(Tracer* t, @RTYPE@ pc, uint16_t op, @RTYPE@ addr, uint16_t value) {{
    (void)pc; (void)op;
    if (!t) return;
    t->current.mem_addr = addr;
    t->current.mem_value = value;
    t->current.mem_width = 2;
    t->current.is_write = 0;
    t->current.has_mem = 1;
}}

static inline void trace_mem_read_word(Tracer* t, @RTYPE@ pc, uint16_t op, @RTYPE@ addr, uint32_t value) {{
    (void)pc; (void)op;
    if (!t) return;
    t->current.mem_addr = addr;
    t->current.mem_value = value;
    t->current.mem_width = 4;
    t->current.is_write = 0;
    t->current.has_mem = 1;
}}

static inline void trace_mem_read_dword(Tracer* t, @RTYPE@ pc, uint16_t op, @RTYPE@ addr, uint64_t value) {{
    (void)pc; (void)op;
    if (!t) return;
    t->current.mem_addr = addr;
    t->current.mem_value = value;
    t->current.mem_width = 8;
    t->current.is_write = 0;
    t->current.has_mem = 1;
}}

/* Memory writes */
static inline void trace_mem_write_byte(Tracer* t, @RTYPE@ pc, uint16_t op, @RTYPE@ addr, uint8_t value) {{
    (void)pc; (void)op;
    if (!t) return;
    t->current.mem_addr = addr;
    t->current.mem_value = value;
    t->current.mem_width = 1;
    t->current.is_write = 1;
    t->current.has_mem = 1;
}}

static inline void trace_mem_write_halfword(Tracer* t, @RTYPE@ pc, uint16_t op, @RTYPE@ addr, uint16_t value) {{
    (void)pc; (void)op;
    if (!t) return;
    t->current.mem_addr = addr;
    t->current.mem_value = value;
    t->current.mem_width = 2;
    t->current.is_write = 1;
    t->current.has_mem = 1;
}}

static inline void trace_mem_write_word(Tracer* t, @RTYPE@ pc, uint16_t op, @RTYPE@ addr, uint32_t value) {{
    (void)pc; (void)op;
    if (!t) return;
    t->current.mem_addr = addr;
    t->current.mem_value = value;
    t->current.mem_width = 4;
    t->current.is_write = 1;
    t->current.has_mem = 1;
}}

static inline void trace_mem_write_dword(Tracer* t, @RTYPE@ pc, uint16_t op, @RTYPE@ addr, uint64_t value) {{
    (void)pc; (void)op;
    if (!t) return;
    t->current.mem_addr = addr;
    t->current.mem_value = value;
    t->current.mem_width = 8;
    t->current.is_write = 1;
    t->current.has_mem = 1;
}}

/* Control flow (not tracked) */
static inline void trace_branch_taken(Tracer* t, @RTYPE@ pc, uint16_t op, @RTYPE@ target) {{
    (void)t; (void)pc; (void)op; (void)target;
}}

static inline void trace_branch_not_taken(Tracer* t, @RTYPE@ pc, uint16_t op, @RTYPE@ target) {{
    (void)t; (void)pc; (void)op; (void)target;
}}

/* CSR access (not tracked for diff) */
static inline void trace_csr_read(Tracer* t, @RTYPE@ pc, uint16_t op, uint16_t csr, @RTYPE@ value) {{
    (void)t; (void)pc; (void)op; (void)csr; (void)value;
}}

static inline void trace_csr_write(Tracer* t, @RTYPE@ pc, uint16_t op, uint16_t csr, @RTYPE@ value) {{
    (void)t; (void)pc; (void)op; (void)csr; (void)value;
}}
"#;

/// Placeholder replacements of the Spike tracer for a register width.
pub open spec fn spike_replacements(xlen: Xlen) -> Seq<(Seq<char>, Seq<char>)> {
    let rv64 = xlen == Xlen::Rv64;
    seq![
        ("@RTYPE@"@, rtype_of(xlen)),
        ("@PC_FMT@"@, if rv64 { "%016lx"@ } else { "%08x"@ }),
        ("@VAL_FMT@"@, if rv64 { "%016lx"@ } else { "%08x"@ }),
        ("@PC_CAST@"@, if rv64 { "(unsigned long)"@ } else { "(unsigned)"@ }),
        ("@VAL_CAST@"@, if rv64 { "(unsigned long)"@ } else { "(unsigned)"@ }),
    ]
}

/// Generate the Spike-format tracer header.
pub fn gen_tracer_spike(xlen: Xlen) -> (r: String)
    ensures
        r@ == expanded_text(SPIKE_TEMPLATE@, spike_replacements(xlen)),
{
    let rtype = reg_type(xlen);
    let is_rv64 = match xlen {
        Xlen::Rv64 => true,
        Xlen::Rv32 => false,
    };
    let pc_fmt = if is_rv64 {
        "%016lx"
    } else {
        "%08x"
    };
    let val_fmt = if is_rv64 {
        "%016lx"
    } else {
        "%08x"
    };
    let pc_cast = if is_rv64 {
        "(unsigned long)"
    } else {
        "(unsigned)"
    };
    let val_cast = if is_rv64 {
        "(unsigned long)"
    } else {
        "(unsigned)"
    };
    let mut reps: Vec<(&str, &str)> = Vec::new();
    reps.push(("@RTYPE@", rtype));
    reps.push(("@PC_FMT@", pc_fmt));
    reps.push(("@VAL_FMT@", val_fmt));
    reps.push(("@PC_CAST@", pc_cast));
    reps.push(("@VAL_CAST@", val_cast));
    proof {
        reveal_strlit("@RTYPE@");
        reveal_strlit("@PC_FMT@");
        reveal_strlit("@VAL_FMT@");
        reveal_strlit("@PC_CAST@");
        reveal_strlit("@VAL_CAST@");
        assert(reps@.map_values(|p: (&str, &str)| (p.0@, p.1@)) =~= spike_replacements(xlen));
    }
    expand_template(SPIKE_TEMPLATE, reps.as_slice())
}

/// Generate the buffered diff tracer header.
pub fn gen_tracer_buffered_diff(xlen: Xlen) -> (r: String)
    ensures
        r@ == expanded_text(BUFFERED_DIFF_TEMPLATE@, seq![("@RTYPE@"@, rtype_of(xlen))]),
{
    let rtype = reg_type(xlen);
    let mut reps: Vec<(&str, &str)> = Vec::new();
    reps.push(("@RTYPE@", rtype));
    proof {
        reveal_strlit("@RTYPE@");
        assert(reps@.map_values(|p: (&str, &str)| (p.0@, p.1@)) =~= seq![("@RTYPE@"@, rtype_of(xlen))]);
    }
    expand_template(BUFFERED_DIFF_TEMPLATE, reps.as_slice())
}

} // verus!
