//! Syscall runtime code generation: the `syscalls.c` source with minimal
//! Linux syscall helpers used by the recompiled programs.

use vstd::prelude::*;

use crate::config::Xlen;
use crate::signature::{reg_type, MEMORY_FIXED_REF};
use crate::text::push_str;

verus! {

/// Syscall implementations shared by every guest.
pub const SYSCALLS_BODY: &'static str = r"
reg_t rv_sys_write(RvState* restrict state, reg_t fd, reg_t buf, reg_t count) {
    if (fd == 1 || fd == 2) {
        FILE* out = (fd == 1) ? stdout : stderr;
        uint8_t* ptr = guest_ptr(state, buf);
        size_t n = (size_t)count;
        size_t written = fwrite(ptr, 1, n, out);
        fflush(out);
        return (reg_t)written;
    }
    return (reg_t)-1;
}

reg_t rv_sys_read(RvState* restrict state, reg_t fd, reg_t buf, reg_t count) {
    if (fd == 0) {
        uint8_t* ptr = guest_ptr(state, buf);
        size_t n = (size_t)count;
        size_t read = fread(ptr, 1, n, stdin);
        return (reg_t)read;
    }
    return (reg_t)-1;
}

reg_t rv_sys_brk(RvState* restrict state, reg_t addr) {
    if (addr == 0) {
        return state->brk;
    }
    if (addr >= state->start_brk && (uint64_t)addr < RV_MEMORY_SIZE) {
        state->brk = addr;
        return addr;
    }
    return state->brk;
}

reg_t rv_sys_mmap(
    RvState* restrict state,
    reg_t addr,
    reg_t len,
    reg_t prot,
    reg_t flags,
    reg_t fd,
    reg_t off
) {
    (void)addr;
    (void)prot;
    (void)flags;
    (void)fd;
    (void)off;

    const reg_t page = 4096;
    reg_t current = state->brk;
    reg_t aligned_brk = align_up(current, page);
    reg_t aligned_len = align_up(len, page);
    reg_t new_brk = aligned_brk + aligned_len;

    if ((uint64_t)new_brk < RV_MEMORY_SIZE) {
        state->brk = new_brk;
        memset(guest_ptr(state, aligned_brk), 0, (size_t)aligned_len);
        return aligned_brk;
    }

    return (reg_t)-12; /* ENOMEM */
}

reg_t rv_sys_fstat(RvState* restrict state, reg_t fd, reg_t statbuf) {
    (void)state;
    (void)statbuf;
    if (fd == 1 || fd == 2) {
        return 0;
    }
    return (reg_t)-1;
}

reg_t rv_sys_getrandom(RvState* restrict state, reg_t buf, reg_t len, reg_t flags) {
    (void)flags;
    static uint64_t rng_state = 0x123456789abcdef0ULL;
    uint8_t* ptr = guest_ptr(state, buf);
    size_t n = (size_t)len;
    for (size_t i = 0; i < n; i++) {
        rng_state ^= rng_state << 13;
        rng_state ^= rng_state >> 7;
        rng_state ^= rng_state << 17;
        ptr[i] = (uint8_t)(rng_state & 0xFF);
    }
    return (reg_t)len;
}
";

/// Includes and declarations up to the register type.
pub const HEADER_INCLUDES: &'static str = ".h\"\n#include <stdint.h>\n#include <stdio.h>\n#include <stdlib.h>\n#include <string.h>\n#include <time.h>\n\nint clock_gettime(int clk_id, struct timespec* tp);\nstatic const int kClockRealtime = 0;\n\n/* Minimal Linux syscall helpers for recompiled guests */\n\ntypedef ";

/// Helpers between the register type and the guest pointer body.
pub const HEADER_HELPERS: &'static str = " reg_t;\n\nstatic inline reg_t align_up(reg_t value, reg_t alignment) {\n    return (value + alignment - 1) & ~(alignment - 1);\n}\n\nstatic inline uint8_t* guest_ptr(RvState* restrict state, reg_t addr) {\n    (void)state;\n    ";

/// Start of `rv_sys_clock_gettime`, up to the stores of the result.
pub const CLOCK_START: &'static str = "\nreg_t rv_sys_clock_gettime(RvState* restrict state, reg_t clk_id, reg_t tp) {\n    (void)clk_id;\n    (void)state;\n    struct timespec ts;\n    clock_gettime(kClockRealtime, &ts);\n    uint64_t secs = (uint64_t)ts.tv_sec;\n    uint64_t nsecs = (uint64_t)ts.tv_nsec;\n    ";

/// Header part of the source: includes, the register type, and the helpers.
pub open spec fn syscalls_header(base_name: Seq<char>, rtype: Seq<char>, guest_ptr_impl: Seq<char>) -> Seq<char> {
    "#include \""@ + base_name + HEADER_INCLUDES@ + rtype + HEADER_HELPERS@ + guest_ptr_impl + "\n}\n"@
}

fn push_syscalls_header(out: &mut String, base_name: &str, rtype: &str, guest_ptr_impl: &str)
    ensures
        final(out)@ == old(out)@ + syscalls_header(base_name@, rtype@, guest_ptr_impl@),
{
    let ghost start = out@;
    push_str(out, "#include \"");
    push_str(out, base_name);
    push_str(out, HEADER_INCLUDES);
    push_str(out, rtype);
    push_str(out, HEADER_HELPERS);
    push_str(out, guest_ptr_impl);
    push_str(out, "\n}\n");
    assert(out@ =~= start + syscalls_header(base_name@, rtype@, guest_ptr_impl@));
}

/// `rv_sys_clock_gettime`, storing seconds and nanoseconds with the given statements.
pub open spec fn syscalls_clock(write_secs: Seq<char>, write_nsecs: Seq<char>) -> Seq<char> {
    CLOCK_START@ + write_secs + "\n"@ + write_nsecs + "\n"@ + "    return 0;\n}\n"@
}

fn push_syscalls_clock(out: &mut String, write_secs_stmt: &str, write_nsec_stmt: &str)
    ensures
        final(out)@ == old(out)@ + syscalls_clock(write_secs_stmt@, write_nsec_stmt@),
{
    let ghost start = out@;
    push_str(out, CLOCK_START);
    push_str(out, write_secs_stmt);
    push_str(out, "\n");
    push_str(out, write_nsec_stmt);
    push_str(out, "\n");
    push_str(out, "    return 0;\n}\n");
    assert(out@ =~= start + syscalls_clock(write_secs_stmt@, write_nsec_stmt@));
}

/// Syscall runtime generation configuration.
pub struct SyscallsConfig {
    /// Base name for output files.
    pub base_name: String,
    /// Whether fixed addresses are used.
    pub fixed_addresses: bool,
}

impl SyscallsConfig {
    /// Create a syscall config.
    pub fn new(base_name: &str, fixed_addresses: bool) -> (r: Self)
        ensures
            r.base_name@ == base_name@,
            r.fixed_addresses == fixed_addresses,
    {
        let mut name = String::new();
        push_str(&mut name, base_name);
        SyscallsConfig { base_name: name, fixed_addresses }
    }
}

/// The text of `syscalls.c` for a configuration and register width: guest
/// memory is reached through the fixed memory address or through
/// `state->memory`.
pub open spec fn syscalls_source(base_name: Seq<char>, fixed_addresses: bool, xlen: Xlen) -> Seq<char> {
    let rtype = if xlen == Xlen::Rv64 { "uint64_t"@ } else { "uint32_t"@ };
    let mem_ref = if fixed_addresses { MEMORY_FIXED_REF@ } else { "state->memory"@ };
    let mem_arg = if fixed_addresses { Seq::empty() } else { "state->memory, "@ };
    syscalls_header(base_name, rtype, "return "@ + mem_ref + " + phys_addr(addr);"@)
        + SYSCALLS_BODY@
        + syscalls_clock(
            "wr_mem_u64("@ + mem_arg + "tp, 0, secs);"@,
            "wr_mem_u64("@ + mem_arg + "tp, 8, nsecs);"@,
        )
}

/// Generate the `syscalls.c` source.
pub fn gen_syscalls_source(cfg: &SyscallsConfig, xlen: Xlen) -> (r: String)
    ensures
        r@ == syscalls_source(cfg.base_name@, cfg.fixed_addresses, xlen),
{
    let rtype = reg_type(xlen);
    let (mem_ref, mem_arg) = if cfg.fixed_addresses {
        (MEMORY_FIXED_REF, "")
    } else {
        ("state->memory", "state->memory, ")
    };
    let mut guest_ptr_impl = String::new();
    push_str(&mut guest_ptr_impl, "return ");
    push_str(&mut guest_ptr_impl, mem_ref);
    push_str(&mut guest_ptr_impl, " + phys_addr(addr);");
    let mut write_secs = String::new();
    push_str(&mut write_secs, "wr_mem_u64(");
    push_str(&mut write_secs, mem_arg);
    push_str(&mut write_secs, "tp, 0, secs);");
    let mut write_nsecs = String::new();
    push_str(&mut write_nsecs, "wr_mem_u64(");
    push_str(&mut write_nsecs, mem_arg);
    push_str(&mut write_nsecs, "tp, 8, nsecs);");

    let mut out = String::new();
    push_syscalls_header(&mut out, cfg.base_name.as_str(), rtype, guest_ptr_impl.as_str());
    push_str(&mut out, SYSCALLS_BODY);
    push_syscalls_clock(&mut out, write_secs.as_str(), write_nsecs.as_str());
    proof {
        let mem_arg_v: Seq<char> = if cfg.fixed_addresses { Seq::empty() } else { "state->memory, "@ };
        assert(mem_arg@ == mem_arg_v) by {
            if cfg.fixed_addresses {
                reveal_strlit("");
            }
        }
        assert(write_secs@ =~= "wr_mem_u64("@ + mem_arg_v + "tp, 0, secs);"@);
        assert(write_nsecs@ =~= "wr_mem_u64("@ + mem_arg_v + "tp, 8, nsecs);"@);
        assert(out@ =~= syscalls_source(cfg.base_name@, cfg.fixed_addresses, xlen));
    }
    out
}

} // verus!
