use rvr::c_config::{HostArch, TracerConfig, TracerKind};
use rvr::c_emitter::{signed_text, CEmitter};
use rvr::config::{EmitConfig, FixedAddressConfig, InstretMode, Xlen};
use rvr::inputs::EmitInputs;
use rvr::ir::{BinaryOp, Expr, ReadExpr, TernaryOp, UnaryOp};

// The standard configuration of an AArch64 host, whose hot registers include t0.
fn default_config() -> EmitConfig {
    EmitConfig::standard(Xlen::Rv64, HostArch::Aarch64)
}

fn cold(xlen: Xlen) -> CEmitter {
    let mut config = EmitConfig::standard(xlen, HostArch::X86_64);
    config.hot_regs.clear();
    CEmitter::new(config, EmitInputs::new(0, 0))
}

fn bin(op: BinaryOp, l: Expr, r: Expr) -> Expr {
    Expr::Binary { op, left: Box::new(l), right: Box::new(r) }
}

fn un(op: UnaryOp, e: Expr) -> Expr {
    Expr::Unary { op, expr: Box::new(e) }
}

#[test]
fn test_render_imm() {
    let emitter = CEmitter::new(default_config(), EmitInputs::new(0, 0));
    let expr = Expr::imm(42);
    let result = emitter.render_expr(&expr);
    assert_eq!(result, "0x2aULL");
}

#[test]
fn test_render_reg_read() {
    let mut config = default_config();
    config.hot_regs.clear();
    let emitter = CEmitter::new(config, EmitInputs::new(0, 0));
    let expr = Expr::reg(5);
    let result = emitter.render_expr(&expr);
    assert_eq!(result, "state->regs[5]");
}

#[test]
fn test_render_reg_read_hot() {
    let emitter = CEmitter::new(default_config(), EmitInputs::new(0, 0));
    let expr = Expr::reg(5);
    let result = emitter.render_expr(&expr);
    assert_eq!(result, "t0");
}

#[test]
fn test_render_add() {
    let mut config = default_config();
    config.hot_regs.clear();
    let emitter = CEmitter::new(config, EmitInputs::new(0, 0));
    let expr = Expr::add(Expr::reg(1), Expr::imm(10));
    let result = emitter.render_expr(&expr);
    assert_eq!(result, "(state->regs[1] + 0xaULL)");
}

#[test]
fn test_render_add_hot() {
    let emitter = CEmitter::new(default_config(), EmitInputs::new(0, 0));
    let expr = Expr::add(Expr::reg(1), Expr::imm(10));
    let result = emitter.render_expr(&expr);
    assert_eq!(result, "(ra + 0xaULL)");
}

#[test]
fn render_rv32_literals() {
    let e = cold(Xlen::Rv32);
    assert_eq!(e.render_expr(&Expr::imm(42)), "0x2au");
    assert_eq!(e.render_expr(&Expr::PcConst(0x80)), "0x00000080u");
    assert_eq!(e.render_expr(&Expr::reg(0)), "0");
    let e64 = cold(Xlen::Rv64);
    assert_eq!(e64.render_expr(&Expr::PcConst(0x80)), "0x0000000000000080ULL");
    assert_eq!(e64.render_expr(&Expr::reg(0)), "0x0ULL");
}

#[test]
fn render_unary_ops() {
    let e = cold(Xlen::Rv64);
    assert_eq!(e.render_expr(&un(UnaryOp::Not, Expr::reg(2))), "(~state->regs[2])");
    assert_eq!(e.render_expr(&un(UnaryOp::Sext8, Expr::reg(2))), "((uint64_t)(int8_t)state->regs[2])");
    assert_eq!(e.render_expr(&un(UnaryOp::Clz, Expr::reg(2))), "(state->regs[2] ? __builtin_clzll(state->regs[2]) : 64)");
    let e32 = cold(Xlen::Rv32);
    assert_eq!(e32.render_expr(&un(UnaryOp::Sext32, Expr::reg(2))), "state->regs[2]");
    assert_eq!(e32.render_expr(&un(UnaryOp::Rev8, Expr::reg(2))), "__builtin_bswap32(state->regs[2])");
}

#[test]
fn render_binary_ops() {
    let e = cold(Xlen::Rv64);
    let l = || Expr::reg(1);
    let r = || Expr::reg(2);
    assert_eq!(e.render_expr(&bin(BinaryOp::Sra, l(), r())), "((uint64_t)((int64_t)state->regs[1]  >> state->regs[2]))");
    assert_eq!(e.render_expr(&bin(BinaryOp::Lt, l(), r())), "(int64_t)state->regs[1] < (int64_t)state->regs[2]");
    assert_eq!(e.render_expr(&bin(BinaryOp::Div, l(), r())), "rv_div64(state->regs[1], state->regs[2])");
    assert_eq!(e.render_expr(&bin(BinaryOp::AddW, l(), r())), "((uint64_t)(int64_t)(int32_t)((uint32_t)state->regs[1] + (uint32_t)state->regs[2]))");
    assert_eq!(e.render_expr(&bin(BinaryOp::MulHU, l(), r())), "rv_mulhu64(state->regs[1], state->regs[2])");
    assert_eq!(e.render_expr(&bin(BinaryOp::Pack, l(), r())), "(((uint64_t)(uint32_t)state->regs[1]) | ((uint64_t)(uint32_t)state->regs[2] << 32))");
    let e32 = cold(Xlen::Rv32);
    assert_eq!(e32.render_expr(&bin(BinaryOp::Rem, l(), r())), "rv_rem(state->regs[1], state->regs[2])");
    assert_eq!(e32.render_expr(&bin(BinaryOp::Pack8, l(), r())), "(((uint32_t)(uint8_t)state->regs[1]) | ((uint32_t)(uint8_t)state->regs[2] << 8))");
}

#[test]
fn render_ternary_and_extern_call() {
    let e = cold(Xlen::Rv64);
    let t = Expr::Ternary {
        op: TernaryOp::Select,
        first: Box::new(Expr::reg(1)),
        second: Box::new(Expr::imm(1)),
        third: Box::new(Expr::imm(0)),
    };
    assert_eq!(e.render_expr(&t), "(state->regs[1] ? 0x1ULL : 0x0ULL)");
    let call = Expr::ExternCall { name: "f".to_string(), args: vec![Expr::reg(1), Expr::imm(2), Expr::Var("x".to_string())] };
    assert_eq!(e.render_expr(&call), "f(state->regs[1], 0x2ULL, x)");
    let empty = Expr::ExternCall { name: "g".to_string(), args: vec![] };
    assert_eq!(e.render_expr(&empty), "g()");
}

#[test]
fn render_memory_reads() {
    let e = cold(Xlen::Rv64);
    let load = Expr::Read(ReadExpr::Mem { base: Box::new(Expr::reg(2)), offset: -8, width: 4, signed: true });
    assert_eq!(e.render_expr(&load), "rd_mem_i32(memory, state->regs[2], -8)");
    let e32 = cold(Xlen::Rv32);
    assert_eq!(e32.render_expr(&load), "rd_mem_u32(memory, state->regs[2], -8)");
    let byte = Expr::Read(ReadExpr::MemAddr { addr: Box::new(Expr::imm(16)), width: 1, signed: false });
    assert_eq!(e.render_expr(&byte), "rd_mem_u8(memory, 0x10ULL, 0)");
    assert_eq!(signed_text(-32768), "-32768");
    assert_eq!(signed_text(12), "12");
}

#[test]
fn render_fixed_address_mode() {
    let mut config = default_config().with_fixed_addresses(FixedAddressConfig::default());
    config.hot_regs.clear();
    let e = CEmitter::new(config, EmitInputs::new(0, 0));
    assert_eq!(e.render_expr(&Expr::Var("state".to_string())), "((RvState*)RV_STATE_ADDR)");
    assert_eq!(e.render_expr(&Expr::Read(ReadExpr::Pc)), "((RvState*)RV_STATE_ADDR)->pc");
    let load = Expr::Read(ReadExpr::Mem { base: Box::new(Expr::imm(0)), offset: 4, width: 8, signed: false });
    assert_eq!(e.render_expr(&load), "rd_mem_u64(0x0ULL, 4)");
    assert_eq!(e.render_expr(&Expr::Read(ReadExpr::Csr(0xc00))), "rd_csr(0xc00, instret)");
}

#[test]
fn render_state_reads_and_csr() {
    let e = cold(Xlen::Rv64);
    assert_eq!(e.render_expr(&Expr::Var("state".to_string())), "state");
    assert_eq!(e.render_expr(&Expr::Read(ReadExpr::Temp(3))), "_t3");
    assert_eq!(e.render_expr(&Expr::Read(ReadExpr::Instret)), "state->instret");
    assert_eq!(e.render_expr(&Expr::Read(ReadExpr::ExitCode)), "state->exit_code");
    assert_eq!(e.render_expr(&Expr::Read(ReadExpr::Csr(0x300))), "rd_csr(state, 0x300, instret)");
    let mut config = default_config().with_instret_mode(InstretMode::Off).with_perf_mode(false);
    config.hot_regs.clear();
    let off = CEmitter::new(config, EmitInputs::new(0, 0));
    assert_eq!(off.render_expr(&Expr::Read(ReadExpr::Csr(0x300))), "rd_csr(state, 0x300)");
    let perf = CEmitter::new(default_config().with_perf_mode(true), EmitInputs::new(0, 0));
    assert_eq!(perf.render_expr(&Expr::Read(ReadExpr::Csr(0x300))), "0");
    assert_eq!(perf.render_expr(&Expr::Read(ReadExpr::Cycle)), "0");
}

#[test]
fn render_traced_reads() {
    let mut tracer = TracerConfig::none();
    tracer.builtin = Some(TracerKind::Debug);
    let mut config = EmitConfig::standard(Xlen::Rv64, HostArch::X86_64).with_tracer(tracer);
    config.hot_regs = vec![1];
    let mut e = CEmitter::new(config, EmitInputs::new(0, 0));
    e.current_pc = 0x10;
    e.current_op = 7;
    assert_eq!(e.render_expr(&Expr::reg(1)), "trd_regval(&state->tracer, 0x0000000000000010ULL, 7, 1, ra)");
    assert_eq!(e.render_expr(&Expr::reg(2)), "trd_reg(&state->tracer, 0x0000000000000010ULL, 7, state, 2)");
    let load = Expr::Read(ReadExpr::Mem { base: Box::new(Expr::reg(2)), offset: 0, width: 2, signed: true });
    assert_eq!(e.render_expr(&load), "trd_mem_i16(&state->tracer, 0x0000000000000010ULL, 7, memory, trd_reg(&state->tracer, 0x0000000000000010ULL, 7, state, 2), 0)");
    assert_eq!(e.render_expr(&Expr::Read(ReadExpr::Csr(0x1))), "trd_csr(&state->tracer, 0x0000000000000010ULL, 7, state, 0x1, instret)");
}

#[test]
fn emitter_output_and_lines() {
    let mut e = cold(Xlen::Rv64);
    e.writeln(2, "x;");
    e.write("y");
    assert_eq!(e.output(), "        x;\ny");
    assert_eq!(e.fmt_addr(0x1234), "0x0000000000001234ULL");
    assert_eq!(CEmitter::fmt_pc_comment(0xabc), "0xabc");
    e.reset();
    assert_eq!(e.take_output(), "");
}

use rvr::ir::{BlockIR, BranchHint, InstrIR, Stmt, Terminator, WriteTarget};

fn write(target: WriteTarget, value: Expr) -> Stmt {
    Stmt::Write { target, value }
}

fn with_block(e: &mut CEmitter, pc: u64) {
    e.inputs.valid_addresses.insert(pc);
}

#[test]
fn stmt_writes() {
    let mut e = cold(Xlen::Rv64);
    e.render_stmt(&write(WriteTarget::Reg(5), Expr::imm(1)), 1);
    e.render_stmt(&write(WriteTarget::Reg(0), Expr::imm(1)), 1);
    e.render_stmt(&write(WriteTarget::Temp(0), Expr::imm(2)), 2);
    e.render_stmt(&write(WriteTarget::Csr(0x300), Expr::imm(1)), 1);
    e.render_stmt(&write(WriteTarget::Pc, Expr::imm(4)), 1);
    e.render_stmt(&write(WriteTarget::Exited, Expr::imm(1)), 1);
    e.render_stmt(
        &write(WriteTarget::Mem { base: Expr::reg(2), offset: 4, width: 4 }, Expr::imm(7)),
        1,
    );
    assert_eq!(
        e.output(),
        "    state->regs[5] = 0x1ULL;\n\
         \x20       uint64_t _t0 = 0x2ULL;\n\
         \x20   wr_csr(state, 0x300, 0x1ULL);\n\
         \x20   state->pc = 0x4ULL;\n\
         \x20   state->has_exited = 0x1ULL;\n\
         \x20   wr_mem_u32(memory, state->regs[2], 4, 0x7ULL);\n"
    );
}

#[test]
fn stmt_if_else_and_call() {
    let mut e = cold(Xlen::Rv64);
    let s = Stmt::If {
        cond: bin(BinaryOp::Eq, Expr::reg(1), Expr::imm(0)),
        then_stmts: vec![write(WriteTarget::Reg(2), Expr::imm(1))],
        else_stmts: vec![Stmt::ExternCall { fn_name: "f".to_string(), args: vec![Expr::reg(1)] }],
    };
    e.render_stmt(&s, 1);
    assert_eq!(
        e.output(),
        "    if (state->regs[1] == 0x0ULL) {\n\
         \x20       state->regs[2] = 0x1ULL;\n\
         \x20   } else {\n\
         \x20       f(state->regs[1]);\n\
         \x20   }\n"
    );
    let only_then = Stmt::If { cond: Expr::imm(1), then_stmts: vec![], else_stmts: vec![] };
    let mut e2 = cold(Xlen::Rv64);
    e2.render_stmt(&only_then, 0);
    assert_eq!(e2.output(), "if (0x1ULL) {\n}\n");
}

#[test]
fn stmt_tohost_store() {
    let mut config = default_config().with_tohost(true);
    config.hot_regs.clear();
    let mut e = CEmitter::new(config, EmitInputs::new(0, 0));
    e.current_pc = 0x80;
    e.render_stmt(
        &write(WriteTarget::Mem { base: Expr::reg(2), offset: -4, width: 4 }, Expr::reg(3)),
        1,
    );
    assert_eq!(
        e.output(),
        "    if (unlikely((uint32_t)state->regs[2] + -4 == 0x80001000u)) {\n\
         \x20       handle_tohost_write(state, state->regs[3]);\n\
         \x20       if (unlikely(state->has_exited)) {\n\
         \x20           state->pc = 0x0000000000000080ULL;\n\
         \x20           instret += 1; state->instret = instret;\n\
         \x20           return;\n\
         \x20       }\n\
         \x20   } else {\n\
         \x20       wr_mem_u32(memory, state->regs[2], -4, state->regs[3]);\n\
         \x20   }\n"
    );
}

#[test]
fn statements_that_exit() {
    let nested = Stmt::If {
        cond: Expr::imm(1),
        then_stmts: vec![],
        else_stmts: vec![write(WriteTarget::ExitCode, Expr::imm(3))],
    };
    assert!(CEmitter::statements_write_exit(&vec![nested]));
    assert!(!CEmitter::statements_write_exit(&vec![write(WriteTarget::Reg(1), Expr::imm(3))]));
    assert!(!CEmitter::statements_write_exit(&vec![]));
}

#[test]
fn terminator_jumps() {
    let mut e = cold(Xlen::Rv64);
    with_block(&mut e, 0x100);
    e.render_terminator(&Terminator::Jump { target: 0x100 }, 0);
    assert_eq!(e.output(), "    [[clang::musttail]] return B_0000000000000100(state, memory, instret);\n");

    let mut e = cold(Xlen::Rv64);
    e.current_pc = 0x10;
    e.render_terminator(&Terminator::Fall { target: None }, 0x200);
    assert_eq!(
        e.output(),
        "    state->has_exited = true;\n\
         \x20   state->exit_code = 1;\n\
         \x20   state->pc = 0x0000000000000010ULL;\n\
         \x20   state->instret = instret;\n\
         \x20   return;\n"
    );

    let mut e = cold(Xlen::Rv64);
    e.render_terminator(&Terminator::JumpDyn { addr: Expr::reg(1), resolved: None }, 0);
    assert_eq!(
        e.output(),
        "    [[clang::musttail]] return dispatch_table[dispatch_index(state->regs[1])](state, memory, instret);\n"
    );
}

#[test]
fn terminator_resolved_jump() {
    let mut e = cold(Xlen::Rv64);
    with_block(&mut e, 0x100);
    e.render_terminator(&Terminator::JumpDyn { addr: Expr::reg(1), resolved: Some(vec![0x100, 0x104]) }, 0);
    assert_eq!(
        e.output(),
        "    uint64_t target = state->regs[1];\n\
         \x20   if (target == 0x0000000000000100ULL) {\n\
         \x20       [[clang::musttail]] return B_0000000000000100(state, memory, instret);\n\
         \x20   }\n\
         \x20   [[clang::musttail]] return dispatch_table[dispatch_index(target)](state, memory, instret);\n"
    );
}

#[test]
fn terminator_branch_both_paths() {
    let mut e = cold(Xlen::Rv64);
    with_block(&mut e, 0x100);
    with_block(&mut e, 0x104);
    let t = Terminator::Branch {
        cond: bin(BinaryOp::Ne, Expr::reg(1), Expr::imm(0)),
        target: 0x100,
        fall: None,
        hint: BranchHint::Taken,
    };
    e.render_terminator(&t, 0x104);
    assert_eq!(
        e.output(),
        "    if (likely(state->regs[1] != 0x0ULL)) {\n\
         \x20       [[clang::musttail]] return B_0000000000000100(state, memory, instret);\n\
         \x20   }\n\
         \x20   [[clang::musttail]] return B_0000000000000104(state, memory, instret);\n"
    );
}

#[test]
fn terminator_exit_and_trap() {
    let mut e = cold(Xlen::Rv32);
    e.current_pc = 0x20;
    e.render_terminator(&Terminator::Trap { message: "bad".to_string() }, 0);
    assert_eq!(
        e.output(),
        "    // TRAP: bad\n\
         \x20   state->has_exited = true;\n\
         \x20   state->exit_code = 1;\n\
         \x20   state->pc = 0x00000020u;\n\
         \x20   state->instret = instret;\n\
         \x20   return;\n"
    );
}

#[test]
fn suspend_check_and_side_exit() {
    let mut config = default_config().with_instret_mode(InstretMode::Suspend);
    config.hot_regs.clear();
    let mut e = CEmitter::new(config, EmitInputs::new(0, 0));
    e.render_instret_check(0x40);
    assert_eq!(
        e.output(),
        "    if (unlikely(state->target_instret <= instret)) {\n\
         \x20       state->pc = 0x0000000000000040ULL;\n\
         \x20       state->instret = instret;\n\
         \x20       return;\n\
         \x20   }\n"
    );
    let mut e = cold(Xlen::Rv64);
    with_block(&mut e, 0x100);
    e.instr_idx = 2;
    e.render_side_exit("c", 0x100, BranchHint::NotTaken, 1);
    assert_eq!(
        e.output(),
        "    if (unlikely(c)) {\n\
         \x20       instret += 2;\n\
         \x20       [[clang::musttail]] return B_0000000000000100(state, memory, instret);\n\
         \x20   }\n"
    );
}

#[test]
fn render_small_block() {
    let mut e = cold(Xlen::Rv64);
    with_block(&mut e, 0x108);
    let add = InstrIR {
        pc: 0x100,
        size: 4,
        op: 1,
        raw: 0x13,
        statements: vec![write(WriteTarget::Reg(1), Expr::imm(5))],
        terminator: Terminator::Fall { target: None },
        source_loc: None,
    };
    let jump = InstrIR {
        pc: 0x104,
        size: 4,
        op: 2,
        raw: 0x6f,
        statements: vec![],
        terminator: Terminator::Jump { target: 0x108 },
        source_loc: None,
    };
    let block = BlockIR { start_pc: 0x100, end_pc: 0x108, instructions: vec![add, jump] };
    e.render_block(&block, &vec!["addi".to_string(), "jal".to_string()]);
    assert_eq!(
        e.output(),
        "// Block: 0x100-0x107 (2 instrs)\n\
         __attribute__((preserve_none, nonnull(1))) void B_0000000000000100(RvState* restrict state, uint8_t* restrict memory, uint64_t instret) {\n\
         \x20   // PC: 0x100 ADDI\n\
         \x20   state->regs[1] = 0x5ULL;\n\
         \x20   // PC: 0x104 JAL\n\
         \x20   instret += 2;\n\
         \x20   [[clang::musttail]] return B_0000000000000108(state, memory, instret);\n\
         }\n\n"
    );
}

#[test]
fn instruction_comment_and_line_info() {
    let mut e = cold(Xlen::Rv64);
    let ir = InstrIR {
        pc: 0x200,
        size: 2,
        op: 9,
        raw: 0x1,
        statements: vec![write(WriteTarget::ExitCode, Expr::imm(0))],
        terminator: Terminator::Fall { target: None },
        source_loc: Some(rvr::debug::SourceLoc::new("main.c", 12, "main")),
    };
    e.render_instruction(&ir, "c.nop", false, 0x202, None);
    assert_eq!(
        e.output(),
        "    // PC: 0x200 C.NOP  @ main\n\
         \x20   #line 12 \"main.c\"\n\
         \x20   state->exit_code = 0x0ULL;\n\
         \x20   if (unlikely(state->has_exited)) {\n\
         \x20       state->pc = 0x0000000000000200ULL;\n\
         \x20       state->instret = instret;\n\
         \x20       return;\n\
         \x20   }\n"
    );
    assert_eq!(e.instr_idx, 1);
    assert_eq!(e.current_pc, 0x200);
}
