use rvr::c_config::{HostArch, TracerConfig, TracerKind};
use rvr::config::{EmitConfig, FixedAddressConfig, InstretMode, Xlen};
use rvr::signature::{abi_name, reg_type, state_ref, FnSignature, STATE_FIXED_REF};

fn rv64_config() -> EmitConfig {
    EmitConfig::new(32, Xlen::Rv64, HostArch::X86_64)
}

#[test]
fn test_signature_basic() {
    let config = rv64_config();
    let sig = FnSignature::new(&config);

    assert!(sig.params.contains("RvState* restrict state"));
    assert!(sig.params.contains("uint8_t* restrict memory"));
    assert!(sig.args.contains("state"));
    assert!(sig.args.contains("memory"));
}

#[test]
fn test_signature_with_instret() {
    let mut config = rv64_config();
    config.instret_mode = InstretMode::Count;
    let sig = FnSignature::new(&config);

    assert!(sig.params.contains("uint64_t instret"));
    assert!(sig.args.contains("instret"));
    assert!(sig.save_to_state.contains("state->instret = instret"));
}

#[test]
fn test_signature_no_instret() {
    let mut config = rv64_config();
    config.instret_mode = InstretMode::Off;
    let sig = FnSignature::new(&config);

    assert!(!sig.params.contains("instret"));
    assert!(!sig.counts_instret);
}

#[test]
fn test_signature_with_hot_regs() {
    let mut config = rv64_config();
    config.hot_regs = vec![1, 2];
    let sig = FnSignature::new(&config);

    assert!(sig.params.contains("uint64_t ra"));
    assert!(sig.params.contains("uint64_t sp"));
    assert!(sig.is_hot_reg(1));
    assert!(sig.is_hot_reg(2));
    assert!(!sig.is_hot_reg(3));
}

#[test]
fn test_reg_read() {
    let mut config = rv64_config();
    config.hot_regs = vec![1];
    let sig = FnSignature::new(&config);

    assert_eq!(sig.reg_read(0), "0");
    assert_eq!(sig.reg_read(1), "ra");
    assert!(sig.reg_read(2).contains("->regs[2]"));
}

#[test]
fn test_reg_write() {
    let mut config = rv64_config();
    config.hot_regs = vec![1];
    let sig = FnSignature::new(&config);

    assert_eq!(sig.reg_write(0, "42"), "");
    assert_eq!(sig.reg_write(1, "42"), "ra = 42;");
    assert!(sig.reg_write(2, "42").contains("->regs[2] = 42;"));
}

#[test]
fn test_abi_names() {
    assert_eq!(abi_name(0), "zero");
    assert_eq!(abi_name(1), "ra");
    assert_eq!(abi_name(2), "sp");
    assert_eq!(abi_name(10), "a0");
    assert_eq!(abi_name(31), "t6");
}

#[test]
fn signature_full_text() {
    let mut config = rv64_config();
    config.hot_regs = vec![1, 10];
    let sig = FnSignature::new(&config);
    assert_eq!(
        sig.params,
        "RvState* restrict state, uint8_t* restrict memory, uint64_t instret, uint64_t ra, uint64_t a0"
    );
    assert_eq!(sig.args, "state, memory, instret, ra, a0");
    assert_eq!(
        sig.args_from_state,
        "state, state->memory, state->instret, state->regs[1], state->regs[10]"
    );
    assert_eq!(
        sig.save_to_state,
        "state->instret = instret; state->regs[1] = ra; state->regs[10] = a0;"
    );
    assert_eq!(sig.save_to_state_no_instret, " state->regs[1] = ra; state->regs[10] = a0;");
}

#[test]
fn signature_fixed_addresses_rv32() {
    let mut config = EmitConfig::new(32, Xlen::Rv32, HostArch::X86_64)
        .with_fixed_addresses(FixedAddressConfig::default());
    config.instret_mode = InstretMode::Off;
    config.hot_regs = vec![2];
    let sig = FnSignature::new(&config);
    assert_eq!(sig.params, "uint32_t sp");
    assert_eq!(sig.args, "sp");
    assert_eq!(sig.args_from_state, "((RvState*)RV_STATE_ADDR)->regs[2]");
    assert!(sig.fixed_addresses);
    assert_eq!(sig.reg_read(5), "((RvState*)RV_STATE_ADDR)->regs[5]");
    assert_eq!(sig.reg_write(31, "x"), "((RvState*)RV_STATE_ADDR)->regs[31] = x;");
}

#[test]
fn signature_tracer_fragments_first_trimmed() {
    let mut config = rv64_config().with_fixed_addresses(FixedAddressConfig::default());
    config.instret_mode = InstretMode::Off;
    config.hot_regs = vec![1];
    config.tracer_config = TracerConfig {
        builtin: Some(TracerKind::Debug),
        passed_vars: vec!["tr".to_string()],
        passed_var_params: ", void* tr".to_string(),
        passed_var_args: ", tr".to_string(),
        passed_var_args_from_state: ", state->tr".to_string(),
        passed_var_save_to_state: " state->tr = tr;".to_string(),
    };
    let sig = FnSignature::new(&config);
    assert_eq!(sig.params, "void* tr, uint64_t ra");
    assert_eq!(sig.args, "tr, ra");
    assert_eq!(sig.args_from_state, "state->tr, ((RvState*)RV_STATE_ADDR)->regs[1]");
    assert!(sig.trace_regs);
    assert_eq!(sig.save_to_state, " state->tr = tr; ((RvState*)RV_STATE_ADDR)->regs[1] = ra;");
}

#[test]
fn instret_increment_text() {
    let mut config = rv64_config();
    let sig = FnSignature::new(&config);
    assert_eq!(sig.instret_increment(3), "instret += 3;");
    config.instret_mode = InstretMode::Off;
    let sig = FnSignature::new(&config);
    assert_eq!(sig.instret_increment(3), "");
}

#[test]
fn small_helpers() {
    assert_eq!(state_ref(false), "state");
    assert_eq!(state_ref(true), STATE_FIXED_REF);
    assert_eq!(reg_type(Xlen::Rv64), "uint64_t");
    assert_eq!(reg_type(Xlen::Rv32), "uint32_t");
}
