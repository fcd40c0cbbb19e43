use rvr::config::Xlen;
use rvr::tracers::{
    gen_tracer_buffered_diff, gen_tracer_debug, gen_tracer_dynamic, gen_tracer_ffi,
    gen_tracer_spike,
};

#[test]
fn ffi_tracer_header() {
    let h = gen_tracer_ffi(Xlen::Rv64);
    assert!(h.contains("typedef struct Tracer {\n    void* inner;\n} Tracer;"));
    assert!(h.contains("extern void trace_block(Tracer* tracer, uint64_t pc);"));
    assert!(!h.contains("{rtype}"));
    let h32 = gen_tracer_ffi(Xlen::Rv32);
    assert!(h32.contains("extern void trace_pc(Tracer* tracer, uint32_t pc, uint16_t op);"));
}

#[test]
fn debug_and_dynamic_tracer_headers() {
    let d = gen_tracer_debug(Xlen::Rv32);
    assert!(d.contains("uint32_t"));
    assert!(!d.contains("{rtype}"));
    let y = gen_tracer_dynamic(Xlen::Rv64);
    assert!(y.contains("trace_csr_fn fn_csr_write;"));
    assert!(!y.contains("{rtype}"));
}

#[test]
fn spike_tracer_formats() {
    let s64 = gen_tracer_spike(Xlen::Rv64);
    assert!(s64.contains("%016lx"));
    assert!(s64.contains("typedef struct Tracer {\n    FILE* fp;\n    uint64_t pending_pc;"));
    assert!(!s64.contains('@'));
    let s32 = gen_tracer_spike(Xlen::Rv32);
    assert!(s32.contains("%08x"));
    assert!(!s32.contains("%016lx"));
}

#[test]
fn buffered_diff_tracer() {
    let b = gen_tracer_buffered_diff(Xlen::Rv32);
    assert!(b.contains("uint32_t"));
    assert!(!b.contains("@RTYPE@"));
    assert!(b.contains("static inline void trace_csr_write(Tracer* t, uint32_t pc, uint16_t op, uint16_t csr, uint32_t value) {\n    (void)t;"));
}
