use rvr::arm64::Arm64Emitter;
use rvr::c_config::HostArch;
use rvr::config::{EmitConfig, Xlen};
use rvr::inputs::EmitInputs;
use rvr::ir::{BinaryOp, BranchHint, Expr, InstrIR, ReadExpr, Stmt, Terminator, WriteTarget};

fn emitter_with(hot: Vec<u8>) -> Arm64Emitter {
    let mut config = EmitConfig::new(32, Xlen::Rv64, HostArch::Aarch64);
    config.hot_regs = hot;
    let mut inputs = EmitInputs::new(0x1000, 0x1020);
    inputs.valid_addresses.insert(0x1000);
    inputs.valid_addresses.insert(0x1010);
    Arm64Emitter::new(config, inputs)
}

fn reg(r: u8) -> Expr {
    Expr::Read(ReadExpr::Reg(r))
}

fn binary(op: BinaryOp, left: Expr, right: Expr) -> Expr {
    Expr::Binary { op, left: Box::new(left), right: Box::new(right) }
}

fn write(target: WriteTarget, value: Expr) -> Stmt {
    Stmt::Write { target, value }
}

#[test]
fn register_and_state_writes() {
    let mut e = emitter_with(vec![1]);
    e.emit_stmt(&write(WriteTarget::Reg(5), Expr::Imm(7)));
    e.emit_stmt(&write(WriteTarget::Reg(1), Expr::Imm(7)));
    e.emit_stmt(&write(WriteTarget::Reg(0), Expr::Imm(7)));
    e.emit_stmt(&write(WriteTarget::Pc, Expr::Imm(0x1000)));
    e.emit_stmt(&write(WriteTarget::Exited, Expr::Imm(1)));
    e.emit_stmt(&write(WriteTarget::Csr(768), Expr::Imm(0)));
    e.emit_stmt(&write(WriteTarget::Temp(9), Expr::Imm(0)));
    e.emit_stmt(&write(WriteTarget::Temp(2), Expr::Imm(0)));
    assert_eq!(
        e.out,
        "    mov x0, #7\n    str x0, [x19, #40]\n    mov x21, #7\n    mov x0, #4096\n    str x0, [x19, #256]\n    mov w0, #1\n    strb w0, [x19, #281]\n    // unsupported write: Csr(768)\n    mov x0, #0\n    // temp 9 out of range\n    mov x0, #0\n    str x0, [sp, #16]\n"
    );
}

#[test]
fn memory_store() {
    let mut e = emitter_with(vec![1]);
    let target = WriteTarget::Mem { base: reg(1), offset: 8, width: 2 };
    e.emit_stmt(&write(target, Expr::Imm(5)));
    assert_eq!(
        e.out,
        "    mov x1, #5\n    add x0, x21, #8\n    uxtw x0, w0\n    strh w1, [x20, x0]\n"
    );
}

#[test]
fn conditionals() {
    let mut e = emitter_with(vec![1]);
    let cond = binary(BinaryOp::Eq, reg(5), Expr::Imm(0));
    let s = Stmt::If {
        cond,
        then_stmts: vec![write(WriteTarget::Reg(1), Expr::Imm(7))],
        else_stmts: vec![],
    };
    e.emit_stmt(&s);
    assert_eq!(
        e.out,
        "    ldr x17, [x19, #40]\n    cbnz x17, .Lif_else_1\n    mov x21, #7\n.Lif_else_1:\n"
    );

    let mut e = emitter_with(vec![1]);
    let cond = binary(BinaryOp::Lt, reg(1), reg(5));
    let s = Stmt::If {
        cond,
        then_stmts: vec![write(WriteTarget::Reg(5), Expr::Imm(1))],
        else_stmts: vec![write(WriteTarget::Reg(5), Expr::Imm(2))],
    };
    e.emit_stmt(&s);
    assert_eq!(
        e.out,
        "    ldr x17, [x19, #40]\n    cmp x21, x17\n    b.ge .Lif_else_1\n    mov x0, #1\n    str x0, [x19, #40]\n    b .Lif_end_2\n.Lif_else_1:\n    mov x0, #2\n    str x0, [x19, #40]\n.Lif_end_2:\n"
    );
    assert_eq!(e.cold_cache, None);
}

#[test]
fn terminators() {
    let mut e = emitter_with(vec![1]);
    e.emit_terminator(&Terminator::Jump { target: 0x1010 }, 0x1004, 0x1000);
    e.emit_terminator(&Terminator::Jump { target: 0x2000 }, 0x1004, 0x1000);
    e.emit_terminator(&Terminator::Fall { target: None }, 0x1004, 0x1000);
    e.emit_terminator(&Terminator::Fall { target: Some(0x1010) }, 0x1004, 0x1000);
    e.emit_terminator(&Terminator::Trap { message: "bad".to_string() }, 0x1004, 0x1000);
    assert_eq!(
        e.out,
        "    b asm_pc_1010\n    b asm_trap\n    b asm_pc_1010\n    // trap: bad\n    b asm_trap\n"
    );

    let mut e = emitter_with(vec![1]);
    e.emit_terminator(&Terminator::Exit { code: Expr::Imm(3) }, 0x1004, 0x1000);
    assert_eq!(
        e.out,
        "    mov x0, #3\n    mov w0, #1\n    strb w0, [x19, #281]\n    strb w0, [x19, #282]\n    b asm_exit\n"
    );

    let mut e = emitter_with(vec![1]);
    let branch = Terminator::Branch {
        cond: binary(BinaryOp::Ne, reg(1), Expr::Imm(0)),
        target: 0x1010,
        fall: None,
        hint: BranchHint::NoHint,
    };
    e.emit_terminator(&branch, 0x1004, 0x1000);
    assert_eq!(e.out, "    cbnz x21, asm_pc_1010\n");
}

#[test]
fn branch_takes_over_last_comparison() {
    let mut e = emitter_with(vec![1]);
    let instr = InstrIR {
        pc: 0x1000,
        size: 4,
        op: 0,
        raw: 0,
        statements: vec![write(
            WriteTarget::Temp(0),
            binary(BinaryOp::Ltu, reg(1), Expr::Imm(10)),
        )],
        terminator: Terminator::Branch {
            cond: Expr::Read(ReadExpr::Temp(0)),
            target: 0x1010,
            fall: None,
            hint: BranchHint::NoHint,
        },
        source_loc: None,
    };
    e.emit_instruction(&instr, true, 0x1004);
    assert_eq!(e.out, "    add x18, x18, #1\n    cmp x21, #10\n    b.lo asm_pc_1010\n");
}
