use rvr::arm64::Arm64Emitter;
use rvr::c_config::{HostArch, TracerConfig, TracerKind};
use rvr::config::{AddressMode, EmitConfig, FixedAddressConfig, InstretMode, Xlen};
use rvr::inputs::EmitInputs;

fn emitter(xlen: Xlen, hot: Vec<u8>) -> Arm64Emitter {
    let mut config = EmitConfig::new(32, xlen, HostArch::Aarch64);
    config.hot_regs = hot;
    Arm64Emitter::new(config, EmitInputs::new(0x1000, 0x1008))
}

#[test]
fn logical_immediates() {
    assert!(Arm64Emitter::is_logical_imm(0xFF, false));
    assert!(Arm64Emitter::is_logical_imm(0x5555_5555_5555_5555, false));
    assert!(Arm64Emitter::is_logical_imm(0x0F0F_0F0F_0F0F_0F0F, false));
    assert!(Arm64Emitter::is_logical_imm(0x8000_0000_0000_0001, false));
    assert!(Arm64Emitter::is_logical_imm(0xFFFF_0000_FFFF_0000, false));
    assert!(!Arm64Emitter::is_logical_imm(0, false));
    assert!(!Arm64Emitter::is_logical_imm(u64::MAX, false));
    assert!(!Arm64Emitter::is_logical_imm(0x1234, false));
    assert!(!Arm64Emitter::is_logical_imm(0x5, false));
    assert!(Arm64Emitter::is_logical_imm(0xFFFF, true));
    assert!(Arm64Emitter::is_logical_imm(0x8000_0001, true));
    assert!(!Arm64Emitter::is_logical_imm(0xFFFF_FFFF, true));
    assert!(!Arm64Emitter::is_logical_imm(0x1234_5678, true));
}

#[test]
fn rotated_masks() {
    assert!(Arm64Emitter::is_rotated_mask(0b0110, 4));
    assert!(Arm64Emitter::is_rotated_mask(0b1001, 4));
    assert!(!Arm64Emitter::is_rotated_mask(0b0101, 4));
    assert!(!Arm64Emitter::is_rotated_mask(0, 8));
    assert!(!Arm64Emitter::is_rotated_mask(0xFF, 8));
    assert!(!Arm64Emitter::is_rotated_mask(1, 0));
    assert!(!Arm64Emitter::is_rotated_mask(1, 65));
    // Only the low `size` bits count.
    assert!(Arm64Emitter::is_rotated_mask(0xF01, 8));
}

#[test]
fn load_imm_sequences() {
    let mut e = emitter(Xlen::Rv64, vec![]);
    e.load_imm("x0", 0);
    e.load_imm("x0", 0x1234);
    e.load_imm("w1", 0x1234_5678);
    e.load_imm("x2", 0x1_0000_0000);
    e.load_imm("x3", 0xFFFF_0000_0000_1234);
    assert_eq!(
        e.out,
        "    mov x0, #0\n    mov x0, #4660\n    movz w1, #22136\n    movk w1, #4660, lsl #16\n    movz x2, #1, lsl #32\n    movz x3, #4660, lsl #0\n    movk x3, #65535, lsl #48\n"
    );
}

#[test]
fn signed_immediates_and_offsets() {
    let mut e = emitter(Xlen::Rv64, vec![]);
    e.load_signed_imm("x0", -1);
    e.load_signed_imm("x0", -2);
    assert_eq!(
        e.out,
        "    mov x0, #-1\n    movz x0, #65534, lsl #0\n    movk x0, #65535, lsl #16\n    movk x0, #65535, lsl #32\n    movk x0, #65535, lsl #48\n"
    );
    let mut e = emitter(Xlen::Rv64, vec![]);
    e.emit_add_offset("x0", "x0", 0);
    e.emit_add_offset("x0", "x1", 0);
    e.emit_add_offset("x0", "x1", 4095);
    e.emit_add_offset("x0", "x1", -8);
    e.emit_add_offset("x0", "x1", 4096);
    assert_eq!(
        e.out,
        "    mov x0, x1\n    add x0, x1, #4095\n    sub x0, x1, #8\n    mov x2, #4096\n    add x0, x1, x2\n"
    );
}

#[test]
fn address_modes() {
    let mut e = emitter(Xlen::Rv64, vec![]);
    e.apply_address_mode("x0");
    assert_eq!(e.out, "    uxtw x0, w0\n");

    let mut config = EmitConfig::new(32, Xlen::Rv64, HostArch::Aarch64)
        .with_address_mode(AddressMode::Bounds);
    config.memory_bits = 12;
    let mut e = Arm64Emitter::new(config, EmitInputs::new(0, 0));
    e.apply_address_mode("w5");
    assert_eq!(
        e.out,
        "    asr x2, x5, #12\n    cbz x2, .Lbounds_ok_1\n    cmn x2, #1\n    b.eq .Lbounds_ok_1\n    b asm_trap\n.Lbounds_ok_1:\n    and x5, x5, #4095\n"
    );

    let config = EmitConfig::new(32, Xlen::Rv64, HostArch::Aarch64)
        .with_address_mode(AddressMode::Unchecked);
    let mut e = Arm64Emitter::new(config, EmitInputs::new(0, 0));
    e.apply_address_mode("x0");
    assert_eq!(e.out, "");
}

#[test]
fn register_names() {
    assert_eq!(Arm64Emitter::reg_32("x21"), "w21");
    assert_eq!(Arm64Emitter::reg_32("w3"), "w3");
    assert_eq!(Arm64Emitter::reg_32("sp"), "sp");
    assert_eq!(Arm64Emitter::reg_64("w7"), "x7");
    assert_eq!(Arm64Emitter::reg_64("x7"), "x7");
    let e = emitter(Xlen::Rv32, vec![]);
    assert_eq!(e.temp1(), "w0");
    assert_eq!(e.cold_cache_reg(), "w17");
    let e = emitter(Xlen::Rv64, vec![]);
    assert_eq!(e.temp3(), "x2");
    assert_eq!(e.cold_cache_reg(), "x17");
}

#[test]
fn register_access_and_cold_cache() {
    let mut e = emitter(Xlen::Rv64, vec![1]);
    assert_eq!(e.load_rv_to_temp(0, "x0"), "x0");
    assert_eq!(e.load_rv_to_temp(1, "x0"), "x21");
    assert_eq!(e.load_rv_to_temp(5, "x0"), "x17");
    // Second load of the same cold register hits the cache.
    assert_eq!(e.load_rv_to_temp(5, "x0"), "x17");
    assert_eq!(e.out, "    mov x0, #0\n    ldr x17, [x19, #40]\n");
    e.cold_cache_invalidate(5);
    assert_eq!(e.cold_cache, None);

    let mut e = emitter(Xlen::Rv64, vec![1]);
    e.store_to_rv(0, "x0");
    e.store_to_rv(1, "x21");
    e.store_to_rv(1, "x0");
    e.store_to_rv(6, "x0");
    assert_eq!(e.out, "    mov x21, x0\n    str x0, [x19, #48]\n");

    let mut e = emitter(Xlen::Rv32, vec![2]);
    assert_eq!(e.load_rv_as_addr(2, "x1"), "x1");
    assert_eq!(e.load_rv_as_addr(3, "x1"), "x1");
    assert_eq!(e.out, "    mov x1, x21\n    ldr w1, [x19, #12]\n");
}

#[test]
fn save_and_restore_hot_registers() {
    let mut e = emitter(Xlen::Rv64, vec![2, 1]);
    e.save_hot_regs_to_state();
    e.restore_hot_regs_from_state();
    assert_eq!(
        e.out,
        "    str x22, [x19, #8]\n    str x21, [x19, #16]\n    str x18, [x19, #264]\n    ldr x22, [x19, #8]\n    ldr x21, [x19, #16]\n    ldr x18, [x19, #264]\n"
    );
}

#[test]
fn spill_slots() {
    let mut e = emitter(Xlen::Rv64, vec![]);
    assert_eq!(Arm64Emitter::temp_slot_offset(3), Some(24));
    assert_eq!(Arm64Emitter::temp_slot_offset(8), None);
    assert_eq!(e.alloc_spill_slot(), Some(32));
    assert_eq!(e.alloc_spill_slot(), Some(40));
    assert_eq!(e.alloc_spill_slot(), Some(48));
    assert_eq!(e.alloc_spill_slot(), Some(56));
    assert_eq!(e.alloc_spill_slot(), None);
    e.release_spill_slot();
    assert_eq!(e.alloc_spill_slot(), Some(56));
}

#[test]
fn instret_increment() {
    let mut e = emitter(Xlen::Rv64, vec![]);
    e.emit_instret_increment(3, 0x1000);
    e.emit_instret_increment(0x1000, 0x1000);
    assert_eq!(e.out, "    add x18, x18, #3\n    mov x2, #4096\n    add x18, x18, x2\n");
    let config = EmitConfig::new(32, Xlen::Rv64, HostArch::Aarch64).with_instret_mode(InstretMode::Off);
    let mut e = Arm64Emitter::new(config, EmitInputs::new(0, 0));
    e.emit_instret_increment(3, 0);
    assert_eq!(e.out, "");
}

#[test]
fn diff_tracer_records() {
    let mut tracer = TracerConfig::none();
    tracer.builtin = Some(TracerKind::Diff);
    let config = EmitConfig::new(32, Xlen::Rv64, HostArch::Aarch64).with_tracer(tracer);
    let mut e = Arm64Emitter::new(config, EmitInputs::new(0, 0));
    let base = e.layout.offset_tracer;
    e.emit_trace_reg_write(5, "w3");
    let expected = format!(
        "    mov w2, #5\n    strb w2, [x19, #{}]\n    str x3, [x19, #{}]\n    mov w2, #1\n    strb w2, [x19, #{}]\n",
        base + 12,
        base + 16,
        base + 42
    );
    assert_eq!(e.out, expected);
    e.out.clear();
    e.emit_trace_reg_write(0, "x3");
    assert_eq!(e.out, "");
    e.emit_trace_mem_access("x0", "x1", 1, true);
    assert!(e.out.contains("uxtb w2, w1\n"));
    assert!(e.out.contains("mov w2, #1\n"));
    e.out.clear();
    e.emit_trace_pc(0x10, 0x13);
    assert!(e.out.starts_with("    mov x0, #16\n"));
    assert!(e.out.ends_with(&format!("    mov w0, #1\n    strb w0, [x19, #{}]\n", base + 44)));

    let mut e = emitter(Xlen::Rv64, vec![]);
    e.emit_trace_pc(0x10, 0x13);
    assert_eq!(e.out, "");
}

#[test]
fn jump_table_and_dispatch() {
    let mut config = EmitConfig::new(32, Xlen::Rv64, HostArch::Aarch64);
    config.hot_regs = vec![];
    let mut inputs = EmitInputs::new(0x100, 0x108);
    inputs.valid_addresses.insert(0x100);
    inputs.absorbed_to_merged.insert(0x104, 0x100);
    let mut e = Arm64Emitter::new(config, inputs);
    e.emit_jump_table();
    assert_eq!(
        e.out,
        ".section .rodata\n.balign 4\njump_table:\n    .word asm_pc_100 - jump_table\n    .word asm_trap - jump_table\n    .word asm_pc_100 - jump_table\n    .word asm_trap - jump_table\n\n"
    );
    e.out.clear();
    e.emit_dispatch_jump();
    assert_eq!(
        e.out,
        "    adrp x1, jump_table\n    add x1, x1, :lo12:jump_table\n    mov x2, #256\n    sub x0, x0, x2\n    lsr x0, x0, #1\n    ldr w0, [x1, w0, uxtw #2]\n    add x0, x1, w0, sxtw\n    br x0\n"
    );
}

#[test]
fn header_prologue_epilogue() {
    let mut e = emitter(Xlen::Rv64, vec![1]);
    e.emit_header();
    assert!(e.out.starts_with(".arch armv8-a\n\n// Constants\n    .set PC_OFFSET, 256\n    .set INSTRET_OFFSET, 264\n"));
    assert!(e.out.ends_with("    .set MEMORY_OFFSET, 304\n\n"));
    e.out.clear();
    e.emit_text_section();
    assert_eq!(e.out, ".section .text\n.global asm_run\n.type asm_run, %function\n\n");
    e.out.clear();
    e.emit_prologue();
    assert!(e.out.starts_with("asm_run:\n    // Save callee-saved registers\n    stp x29, x30, [sp, #-16]!\n"));
    assert!(e.out.contains("    sub sp, sp, #64\n"));
    assert!(e.out.contains("    mov x19, x0\n    mov x20, x1\n"));
    assert!(e.out.contains("    ldr x21, [x19, #8]\n"));
    assert!(e.out.contains("    ldr x0, [x19, #256]\n    adrp x1, jump_table\n"));
    e.out.clear();
    e.emit_epilogue();
    assert!(e.out.starts_with("asm_exit:\n    // Save hot registers back to state\n    str x21, [x19, #8]\n"));
    assert!(e.out.contains("    ldp x29, x30, [sp], #16\n    ret\n\nasm_trap:\n"));
    assert!(e.out.ends_with("    mov w0, #1\n    strb w0, [x19, #281]\n    strb w0, [x19, #282]\n    b asm_exit\n\n"));
    e.out.clear();
    e.emit_runtime_wrapper();
    assert!(e.out.contains("    str x1, [x0, #256]\n    // Load memory pointer from state\n    ldr x1, [x0, #304]\n    bl asm_run\n"));

    let config = EmitConfig::new(32, Xlen::Rv32, HostArch::Aarch64)
        .with_fixed_addresses(FixedAddressConfig::default());
    let mut e = Arm64Emitter::new(config, EmitInputs::new(0x100, 0x100));
    e.emit_header();
    assert!(e.out.contains("    .set RV_STATE_ADDR, 0x1000000000\n    .set RV_MEMORY_ADDR, 0x2000000000\n"));
    e.out.clear();
    e.emit_prologue();
    assert!(e.out.contains("    // Fixed address mode\n    movz x19, #16, lsl #32\n    movz x20, #32, lsl #32\n"));
    assert!(e.out.contains("    ldr w0, [x19, #128]\n"));
    e.out.clear();
    e.emit_runtime_wrapper();
    assert!(e.out.contains("    str w1, [x0, #128]\n    bl asm_run\n"));
}

#[test]
fn labels_are_unique() {
    let mut e = emitter(Xlen::Rv64, vec![]);
    assert_eq!(e.next_label("a"), ".La_1");
    assert_eq!(e.next_label("b"), ".Lb_2");
    e.emit_pc_label(0xabc);
    assert_eq!(e.out, "asm_pc_abc:\n");
}

#[test]
fn addsub_immediates() {
    assert_eq!(Arm64Emitter::addsub_imm_parts(0), Some((0, false)));
    assert_eq!(Arm64Emitter::addsub_imm_parts(4095), Some((4095, false)));
    assert_eq!(Arm64Emitter::addsub_imm_parts(-4095), Some((4095, false)));
    assert_eq!(Arm64Emitter::addsub_imm_parts(4096), Some((1, true)));
    assert_eq!(Arm64Emitter::addsub_imm_parts(0xFF_F000), Some((0xFFF, true)));
    assert_eq!(Arm64Emitter::addsub_imm_parts(0x100_0000), None);
    assert_eq!(Arm64Emitter::addsub_imm_parts(4097), None);
    assert_eq!(Arm64Emitter::addsub_imm_parts(i64::MIN), None);
}

#[test]
fn signed_immediates_by_width() {
    let e32 = emitter(Xlen::Rv32, vec![]);
    assert_eq!(e32.signed_imm(0xFFFF_FFFF), -1);
    assert_eq!(e32.signed_imm(0x7FFF_FFFF), 0x7FFF_FFFF);
    assert_eq!(e32.signed_imm(0x8000_0000), -0x8000_0000);
    let e64 = emitter(Xlen::Rv64, vec![]);
    assert_eq!(e64.signed_imm(u64::MAX), -1);
}

#[test]
fn compare_with_immediates() {
    let mut e = emitter(Xlen::Rv64, vec![]);
    e.emit_cmp_with_imm("x5", 10);
    e.emit_cmp_with_imm("x5", -10);
    e.emit_cmp_with_imm("x5", 0x5000);
    e.emit_cmp_with_imm("x5", -0x5000);
    e.emit_cmp_with_imm("x5", 0x12345);
    assert_eq!(
        e.out,
        "    cmp x5, #10\n    cmn x5, #10\n    cmp x5, #5, lsl #12\n    cmn x5, #5, lsl #12\n    movz x1, #9029, lsl #0\n    movk x1, #1, lsl #16\n    cmp x5, x1\n"
    );
    let mut e = emitter(Xlen::Rv32, vec![]);
    e.emit_cmp_with_imm("w5", 0x12345);
    assert_eq!(e.out, "    movz w1, #9029\n    movk w1, #1, lsl #16\n    cmp w5, w1\n");
    e.out.clear();
    e.emit_compare("lt", "w0", "w1", "w2");
    assert_eq!(e.out, "    cmp w1, w2\n    cset w0, lt\n");
}

#[test]
fn state_field_reads() {
    let mut e = emitter(Xlen::Rv64, vec![]);
    assert_eq!(e.emit_expr_read_csr(0xC00, "x0"), "x0");
    e.emit_expr_read_csr(0x007, "x0");
    e.emit_expr_read_pc("x1");
    e.emit_expr_read_exited("x1");
    e.emit_expr_read_exit_code("x1");
    e.emit_expr_read_res_addr("x1");
    e.emit_expr_read_res_valid("x1");
    assert_eq!(
        e.out,
        "    mov x0, x18\n    // CSR 0x007 not implemented\n    mov x0, #0\n    ldr x1, [x19, #256]\n    ldrb w1, [x19, #281]\n    ldrb w1, [x19, #282]\n    ldr x1, [x19, #272]\n    ldrb w1, [x19, #280]\n"
    );

    let mut e = emitter(Xlen::Rv32, vec![]);
    e.emit_expr_read_csr(0xC80, "w0");
    e.emit_expr_read_instret("w3");
    e.emit_expr_read_temp(2, "x0");
    e.emit_expr_read_temp(9, "x0");
    e.emit_expr_var("state", "x4");
    e.emit_expr_var("other", "x4");
    assert_eq!(
        e.out,
        "    lsr x0, x18, #32\n    mov w3, w18\n    ldr w0, [sp, #16]\n    // temp 9 out of range\n    mov x0, #0\n    mov w4, w19\n    // unsupported var: other\n    mov x4, #0\n"
    );

    let config = EmitConfig::new(32, Xlen::Rv64, HostArch::Aarch64).with_instret_mode(InstretMode::Off);
    let mut e = Arm64Emitter::new(config, EmitInputs::new(0, 0));
    e.emit_expr_read_instret("x0");
    assert_eq!(e.out, "    ldr x0, [x19, #264]\n");
}

#[test]
fn memory_loads_and_immediates() {
    let mut e = emitter(Xlen::Rv64, vec![]);
    e.emit_load_from_mem("x20, x0", "x1", 1, false);
    e.emit_load_from_mem("x20, x0", "x1", 1, true);
    e.emit_load_from_mem("x20, x0", "x1", 4, true);
    e.emit_load_from_mem("x20, x0", "x1", 4, false);
    e.emit_load_from_mem("x20, x0", "x1", 8, false);
    assert_eq!(
        e.out,
        "    ldrb w1, [x20, x0]\n    ldrsb x1, [x20, x0]\n    ldrsw x1, [x20, x0]\n    ldr w1, [x20, x0]\n    ldr x1, [x20, x0]\n"
    );
    let mut e = emitter(Xlen::Rv32, vec![]);
    e.emit_load_from_mem("x20, x0", "x1", 2, true);
    e.emit_load_from_mem("x20, x0", "x1", 4, true);
    assert_eq!(e.out, "    ldrsh w1, [x20, x0]\n    ldr w1, [x20, x0]\n");

    let mut e = emitter(Xlen::Rv64, vec![]);
    assert_eq!(e.emit_expr_imm(0, "x3"), "x3");
    e.emit_expr_imm(7, "x3");
    e.emit_expr_pc_const(0x1000, "x3");
    e.emit_store_next_pc_imm(0x1004);
    assert_eq!(
        e.out,
        "    mov x3, #0\n    mov x3, #7\n    mov x3, #4096\n    mov x1, #4100\n    str x1, [x19, #256]\n"
    );
}

#[test]
fn bit_sequences_and_spills() {
    let mut e = emitter(Xlen::Rv64, vec![]);
    e.emit_cpop64("x0");
    assert!(e.out.starts_with("    lsr x2, x0, #1\n    and x2, x2, #0x5555555555555555\n"));
    assert!(e.out.ends_with("    and x0, x0, #0x7f\n"));
    e.out.clear();
    e.emit_cpop32("w0");
    assert!(e.out.starts_with("    lsr w2, w0, #1\n"));
    assert!(e.out.ends_with("    and w0, w0, #0x3f\n"));
    e.out.clear();
    e.emit_orc8_64("x0");
    assert!(e.out.contains("    and x0, x0, #0x0101010101010101\n    mov x2, #0xff\n    mul x0, x0, x2\n"));
    e.out.clear();
    e.emit_orc8_32("w0");
    assert!(e.out.ends_with("    and w0, w0, #0x01010101\n    mov w2, #0xff\n    mul w0, w0, w2\n"));
    e.out.clear();
    e.emit_write_exited();
    assert_eq!(e.out, "    mov w0, #1\n    strb w0, [x19, #281]\n");

    e.out.clear();
    let slot = e.alloc_spill_slot();
    e.restore_spilled_left(slot, "x0");
    e.restore_spilled_left(None, "x0");
    assert_eq!(e.out, "    ldr x0, [sp, #32]\n");
    assert_eq!(e.spill_depth, 0);
}

#[test]
fn target_resolution() {
    let mut inputs = EmitInputs::new(0x100, 0x110);
    inputs.absorbed_to_merged.insert(0x104, 0x100);
    let e = Arm64Emitter::new(EmitConfig::new(32, Xlen::Rv64, HostArch::Aarch64), inputs);
    assert_eq!(e.resolve_target_pc(0x104), 0x100);
    assert_eq!(e.resolve_target_pc(0x108), 0x108);
}
