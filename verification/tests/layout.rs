use rvr::layout::RvStateLayout;

#[test]
fn layout_rv64() {
    let l = RvStateLayout::from_params(8, 32, false);
    assert_eq!(l.offset_regs, 0);
    assert_eq!(l.offset_pc, 256);
    assert_eq!(l.offset_instret, 264);
    assert_eq!(l.offset_reservation_addr, 272);
    assert_eq!(l.offset_reservation_valid, 280);
    assert_eq!(l.offset_has_exited, 281);
    assert_eq!(l.offset_exit_code, 282);
    assert_eq!(l.offset_brk, 288);
    assert_eq!(l.offset_start_brk, 296);
    assert_eq!(l.offset_memory, 304);
    assert_eq!(l.offset_tracer, 312);
    assert_eq!(l.reg_offset(5), 40);
}

#[test]
fn layout_rv64_suspend() {
    let l = RvStateLayout::from_params(8, 32, true);
    assert_eq!(l.offset_target_instret, 272);
    assert_eq!(l.offset_reservation_addr, 280);
    assert_eq!(l.offset_has_exited, 289);
    assert_eq!(l.offset_brk, 296);
    assert_eq!(l.offset_memory, 312);
}

#[test]
fn layout_rv32() {
    let l = RvStateLayout::from_params(4, 32, false);
    assert_eq!(l.offset_pc, 128);
    assert_eq!(l.offset_instret, 136);
    assert_eq!(l.offset_reservation_addr, 144);
    assert_eq!(l.offset_reservation_valid, 148);
    assert_eq!(l.offset_has_exited, 149);
    assert_eq!(l.offset_exit_code, 150);
    assert_eq!(l.offset_brk, 152);
    assert_eq!(l.offset_start_brk, 156);
    assert_eq!(l.offset_memory, 160);
    assert_eq!(l.reg_offset(3), 12);
    // RV32E: 16 registers; pc at 64, instret aligned to 72.
    let e = RvStateLayout::from_params(4, 16, false);
    assert_eq!(e.offset_pc, 64);
    assert_eq!(e.offset_instret, 72);
}
