use rvr::c_config::HostArch;
use rvr::config::{EmitConfig, InstretMode, Xlen};
use rvr::dispatch::{gen_dispatch_file, DispatchConfig};
use rvr::inputs::EmitInputs;

#[test]
fn test_gen_dispatch() {
    let config = EmitConfig::standard(Xlen::Rv64, HostArch::X86_64);
    let mut inputs = EmitInputs::new(0x80000000, 0x80000010).with_initial_brk(0x80010000);
    inputs.valid_addresses.insert(0x80000000u64);
    inputs.valid_addresses.insert(0x80000004u64);

    let dispatch_cfg = DispatchConfig::new(&config, "test", inputs);

    let dispatch = gen_dispatch_file(&dispatch_cfg);

    assert!(dispatch.contains("dispatch_table"));
    assert!(dispatch.contains("B_0000000080000000"));
    assert!(dispatch.contains("B_0000000080000004"));
    assert!(dispatch.contains("rv_trap"));
    assert!(dispatch.contains("rv_execute_from"));
}

#[test]
fn test_absorbed_mapping() {
    let config = EmitConfig::standard(Xlen::Rv64, HostArch::X86_64);
    let mut inputs = EmitInputs::new(0x80000000, 0x80000008).with_initial_brk(0x80010000);
    inputs.valid_addresses.insert(0x80000000u64);
    inputs
        .absorbed_to_merged
        .insert(0x80000002u64, 0x80000000u64);

    let dispatch_cfg = DispatchConfig::new(&config, "test", inputs);

    let dispatch = gen_dispatch_file(&dispatch_cfg);

    // Address 0x80000002 should point to B_0000000080000000
    assert!(dispatch.contains("B_0000000080000000,\n    B_0000000080000000,"));
}

#[test]
fn dispatch_table_has_one_entry_per_slot() {
    let config = EmitConfig::standard(Xlen::Rv64, HostArch::X86_64);
    let mut inputs = EmitInputs::new(0x100, 0x107);
    inputs.valid_addresses.insert(0x100u64);
    inputs.absorbed_to_merged.insert(0x104u64, 0x100u64);
    let cfg = DispatchConfig::new(&config, "prog", inputs);
    let text = gen_dispatch_file(&cfg);
    let table_start = text.find("const rv_fn dispatch_table[] = {\n").unwrap();
    let table_end = text[table_start..].find("};\n").unwrap() + table_start;
    let table = &text[table_start..table_end];
    // Slots 0x100, 0x102, 0x104, 0x106.
    assert_eq!(
        table,
        "const rv_fn dispatch_table[] = {\n    B_0000000000000100,\n    rv_trap,\n    B_0000000000000100,\n    rv_trap,\n"
    );
    assert!(text.starts_with("#include \"prog_blocks.h\"\n\n/* Trap handler"));
}

#[test]
fn dispatch_runtime_suspend_check_and_tracing() {
    let config = EmitConfig::standard(Xlen::Rv64, HostArch::X86_64)
        .with_instret_mode(InstretMode::Suspend);
    let cfg = DispatchConfig::new(&config, "t", EmitInputs::new(0, 0));
    let text = gen_dispatch_file(&cfg);
    assert!(text.contains("if (state->target_instret <= state->instret) return 2;"));
    assert!(!text.contains("trace_init"));
    assert!(text.contains("const rv_fn dispatch_table[] = {\n};\n\n"));

    let config = EmitConfig::standard(Xlen::Rv64, HostArch::X86_64).with_instret_mode(InstretMode::Off);
    let cfg = DispatchConfig::new(&config, "t", EmitInputs::new(0, 0));
    let text = gen_dispatch_file(&cfg);
    assert!(!text.contains("return 2;"));
}
