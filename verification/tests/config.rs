use rvr::c_config::{
    compute_num_hot_regs, default_total_slots, Compiler, HostArch, TracerConfig, TracerKind,
};
use rvr::config::{
    AddressMode, EmitConfig, EmitFlags, FixedAddressConfig, InstretMode, Xlen, REG_PRIORITY,
};

#[test]
fn test_compiler_linker_derivation() {
    // Basic clang -> lld
    let c = Compiler::new("clang");
    assert_eq!(c.linker(), Some("lld".to_string()));

    // Versioned clang-20 -> lld-20
    let c = Compiler::new("clang-20");
    assert_eq!(c.linker(), Some("lld-20".to_string()));

    // Path with version
    let c = Compiler::new("/opt/llvm/bin/clang-18");
    assert_eq!(c.linker(), Some("lld-18".to_string()));

    // GCC has no lld
    let c = Compiler::new("gcc");
    assert_eq!(c.linker(), None);

    let c = Compiler::new("gcc-13");
    assert_eq!(c.linker(), None);

    // Explicit linker override
    let c = Compiler::new("clang-20").with_linker("lld-19");
    assert_eq!(c.linker(), Some("lld-19".to_string()));
}

#[test]
fn test_compiler_addr2line_derivation() {
    let c = Compiler::new("clang");
    assert_eq!(c.addr2line(), "llvm-addr2line");

    let c = Compiler::new("clang-20");
    assert_eq!(c.addr2line(), "llvm-addr2line-20");

    let c = Compiler::new("/opt/llvm/bin/clang-18");
    assert_eq!(c.addr2line(), "llvm-addr2line-18");

    let c = Compiler::new("gcc");
    assert_eq!(c.addr2line(), "llvm-addr2line");

    let c = Compiler::new("gcc-13");
    assert_eq!(c.addr2line(), "llvm-addr2line");
}

#[test]
fn test_compute_num_hot_regs() {
    let tracer = TracerConfig::none();
    assert_eq!(compute_num_hot_regs(10, InstretMode::Count, &tracer, false), 7);
    assert_eq!(compute_num_hot_regs(10, InstretMode::Off, &tracer, false), 8);
    assert_eq!(compute_num_hot_regs(10, InstretMode::Suspend, &tracer, false), 7);
    assert_eq!(compute_num_hot_regs(10, InstretMode::Count, &tracer, true), 9);
    assert_eq!(compute_num_hot_regs(10, InstretMode::Off, &tracer, true), 10);
}

#[test]
fn compute_num_hot_regs_saturates_and_counts_passed_vars() {
    let tracer = TracerConfig::none();
    assert_eq!(compute_num_hot_regs(2, InstretMode::Count, &tracer, false), 0);
    let tracer = TracerConfig {
        builtin: Some(TracerKind::Debug),
        passed_vars: vec!["a".to_string(), "b".to_string()],
        passed_var_params: String::new(),
        passed_var_args: String::new(),
        passed_var_args_from_state: String::new(),
        passed_var_save_to_state: String::new(),
    };
    assert_eq!(compute_num_hot_regs(10, InstretMode::Count, &tracer, false), 5);
    assert_eq!(compute_num_hot_regs(4, InstretMode::Count, &tracer, false), 0);
}

#[test]
fn compiler_names() {
    assert!(Compiler::clang().is_clang());
    assert!(!Compiler::gcc().is_clang());
    assert_eq!(Compiler::gcc().command(), "gcc");
    assert!(Compiler::new("/usr/bin/clang-17").is_clang());
    assert_eq!(Compiler::new("/usr/bin/clang-17").linker(), Some("lld-17".to_string()));
}

#[test]
fn default_slots_per_host() {
    assert_eq!(default_total_slots(HostArch::Aarch64), 24);
    assert_eq!(default_total_slots(HostArch::X86_64), 11);
    assert_eq!(default_total_slots(HostArch::Other), 11);
}

#[test]
fn test_default_config() {
    // The default configuration is the standard one for the host; both hosts
    // give a 32-register configuration with hot registers and instret counting.
    for host in [HostArch::X86_64, HostArch::Aarch64] {
        let config = EmitConfig::standard(Xlen::Rv64, host);
        assert_eq!(config.num_regs, 32);
        assert!(!config.hot_regs.is_empty());
        assert!(config.instret_mode.counts());
    }
}

#[test]
fn test_standard_config() {
    let config = EmitConfig::standard(Xlen::Rv64, HostArch::X86_64);
    assert_eq!(config.num_regs, 32);
    assert!(!config.hot_regs.is_empty());
    assert!(config.instret_mode.counts());
    // 11 slots - 3 fixed = 8 hot registers in priority order
    assert_eq!(config.hot_regs, REG_PRIORITY[..8].to_vec());
}

#[test]
fn test_hot_regs_init() {
    let mut config = EmitConfig::new(32, Xlen::Rv64, HostArch::X86_64);
    config.instret_mode = InstretMode::Count;
    config.init_hot_regs(10);
    assert_eq!(config.hot_regs.len(), 7);
    assert_eq!(config.hot_regs[0], 1);
    assert_eq!(config.hot_regs[1], 2);
}

#[test]
fn test_hot_regs_no_instret() {
    let mut config = EmitConfig::new(32, Xlen::Rv64, HostArch::X86_64);
    config.instret_mode = InstretMode::Off;
    config.init_hot_regs(10);
    assert_eq!(config.hot_regs.len(), 8);
}

#[test]
fn hot_regs_skip_missing_registers_on_rve() {
    let mut config = EmitConfig::new(16, Xlen::Rv32, HostArch::Aarch64);
    config.init_hot_regs(30);
    assert_eq!(config.hot_regs.len(), 15);
    assert!(config.hot_regs.iter().all(|&r| r >= 1 && r < 16));
}

#[test]
fn test_is_hot_reg() {
    let mut config = EmitConfig::new(32, Xlen::Rv64, HostArch::X86_64);
    config.hot_regs = vec![1, 2, 10];
    assert!(config.is_hot_reg(1));
    assert!(config.is_hot_reg(2));
    assert!(config.is_hot_reg(10));
    assert!(!config.is_hot_reg(0));
    assert!(!config.is_hot_reg(3));
}

#[test]
fn fixed_addresses_free_slots() {
    let config = EmitConfig::new(32, Xlen::Rv64, HostArch::X86_64);
    let before = config.hot_regs.len();
    let config = config.with_fixed_addresses(FixedAddressConfig::default());
    assert!(config.has_fixed_addresses());
    assert_eq!(config.hot_regs.len(), before + 2);
}

#[test]
fn instret_and_address_modes() {
    assert!(InstretMode::Count.counts());
    assert!(!InstretMode::Off.counts());
    assert!(InstretMode::Suspend.suspends());
    assert!(!InstretMode::Count.suspends());
    assert_eq!(InstretMode::Off.as_c_mode(), 0);
    assert_eq!(InstretMode::Count.as_c_mode(), 1);
    assert!(AddressMode::Wrap.needs_mask());
    assert!(AddressMode::Bounds.needs_bounds_check());
    assert!(AddressMode::Unchecked.assumes_valid());
    assert!(!AddressMode::Unchecked.needs_mask());
}

#[test]
fn emit_flags_roundtrip() {
    let mut f = EmitFlags::empty();
    assert!(!f.emit_comments());
    f.set_emit_comments(true);
    f.set_htif_verbose(true);
    assert!(f.emit_comments());
    assert!(f.htif_verbose());
    assert!(!f.htif_enabled());
    assert!(!f.emit_line_info());
    f.set_emit_comments(false);
    assert!(!f.emit_comments());
    assert!(f.htif_verbose());
}
