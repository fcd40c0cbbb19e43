use rvr::config::Xlen;
use rvr::syscalls::{gen_syscalls_source, SyscallsConfig, SYSCALLS_BODY};

#[test]
fn syscalls_source_with_state_memory() {
    let cfg = SyscallsConfig::new("prog", false);
    assert_eq!(cfg.base_name, "prog");
    assert!(!cfg.fixed_addresses);
    let src = gen_syscalls_source(&cfg, Xlen::Rv64);
    assert!(src.starts_with("#include \"prog.h\"\n#include <stdint.h>\n"));
    assert!(src.contains("typedef uint64_t reg_t;"));
    assert!(src.contains("    (void)state;\n    return state->memory + phys_addr(addr);\n}\n"));
    assert!(src.contains(SYSCALLS_BODY));
    assert!(src.contains("    wr_mem_u64(state->memory, tp, 0, secs);\n"));
    assert!(src.ends_with("wr_mem_u64(state->memory, tp, 8, nsecs);\n    return 0;\n}\n"));
}

#[test]
fn syscalls_source_fixed_addresses_rv32() {
    let cfg = SyscallsConfig::new("guest", true);
    let src = gen_syscalls_source(&cfg, Xlen::Rv32);
    assert!(src.contains("typedef uint32_t reg_t;"));
    assert!(src.contains("return ((uint8_t*)RV_MEMORY_ADDR) + phys_addr(addr);"));
    assert!(src.contains("wr_mem_u64(tp, 0, secs);"));
    assert!(src.contains("wr_mem_u64(tp, 8, nsecs);"));
    assert!(!src.contains("state->memory, tp"));
}
