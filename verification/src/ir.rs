//! The expression language of the lifted instructions, as the code emitters
//! read it: immediates, reads of guest state, and unary, binary and ternary
//! operations, with register values held as 64-bit integers.

use vstd::prelude::*;

use crate::debug::SourceLoc;

verus! {

/// Unary operations.
#[derive(Clone, Copy, Debug, PartialEq, Eq, Structural)]
pub enum UnaryOp {
    Not,
    Neg,
    Sext8,
    Sext16,
    Sext32,
    Zext8,
    Zext16,
    Zext32,
    Clz,
    Ctz,
    Cpop,
    Clz32,
    Ctz32,
    Cpop32,
    Orc8,
    Rev8,
    Brev8,
    Zip,
    Unzip,
}

/// Binary operations.
#[derive(Clone, Copy, Debug, PartialEq, Eq, Structural)]
pub enum BinaryOp {
    Add,
    Sub,
    Mul,
    And,
    Or,
    Xor,
    Sll,
    Srl,
    Sra,
    Eq,
    Ne,
    Lt,
    Ge,
    Ltu,
    Geu,
    Div,
    DivU,
    Rem,
    RemU,
    AddW,
    SubW,
    MulW,
    DivW,
    DivUW,
    RemW,
    RemUW,
    SllW,
    SrlW,
    SraW,
    MulH,
    MulHSU,
    MulHU,
    Pack,
    Pack8,
    Pack16,
}

/// Ternary operations.
#[derive(Clone, Copy, Debug, PartialEq, Eq, Structural)]
pub enum TernaryOp {
    Select,
}

/// Reads of guest state.
pub enum ReadExpr {
    /// A guest register.
    Reg(u8),
    /// Memory at a base expression plus an offset.
    Mem { base: Box<Expr>, offset: i16, width: u8, signed: bool },
    /// Memory at an address expression.
    MemAddr { addr: Box<Expr>, width: u8, signed: bool },
    /// A CSR.
    Csr(u16),
    Cycle,
    Instret,
    Pc,
    TraceIdx,
    PcIdx,
    ResAddr,
    ResValid,
    Exited,
    ExitCode,
    /// A block-local temporary.
    Temp(u8),
}

/// Expressions.
pub enum Expr {
    /// An immediate.
    Imm(u64),
    /// A read of guest state.
    Read(ReadExpr),
    /// A pc-relative constant (already resolved).
    PcConst(u64),
    /// A named variable of the generated code.
    Var(String),
    Unary { op: UnaryOp, expr: Box<Expr> },
    Binary { op: BinaryOp, left: Box<Expr>, right: Box<Expr> },
    Ternary { op: TernaryOp, first: Box<Expr>, second: Box<Expr>, third: Box<Expr> },
    /// A call of a runtime helper.
    ExternCall { name: String, args: Vec<Expr> },
}

/// Static prediction of a conditional branch.
#[derive(Clone, Copy, Debug, PartialEq, Eq, Structural)]
pub enum BranchHint {
    /// No prediction.
    NoHint,
    /// Usually taken.
    Taken,
    /// Usually not taken.
    NotTaken,
}

/// Destinations of a write.
pub enum WriteTarget {
    /// A guest register.
    Reg(u8),
    /// Memory at a base expression plus an offset.
    Mem { base: Expr, offset: i16, width: u8 },
    /// A CSR.
    Csr(u16),
    Pc,
    /// A block-local temporary.
    Temp(u8),
    ResAddr,
    ResValid,
    Exited,
    ExitCode,
}

/// Statements of a lifted instruction.
pub enum Stmt {
    /// A write of a value.
    Write { target: WriteTarget, value: Expr },
    /// A conditional.
    If { cond: Expr, then_stmts: Vec<Stmt>, else_stmts: Vec<Stmt> },
    /// A call of a runtime helper for its effect.
    ExternCall { fn_name: String, args: Vec<Expr> },
}

/// How control leaves an instruction.
pub enum Terminator {
    /// Fall through (to `target`, or to the next instruction).
    Fall { target: Option<u64> },
    /// A direct jump.
    Jump { target: u64 },
    /// An indirect jump, with its targets where the analysis resolved them.
    JumpDyn { addr: Expr, resolved: Option<Vec<u64>> },
    /// A conditional branch.
    Branch { cond: Expr, target: u64, fall: Option<u64>, hint: BranchHint },
    /// Exit with a code.
    Exit { code: Expr },
    /// A trap with a message.
    Trap { message: String },
}

/// One lifted instruction.
pub struct InstrIR {
    /// Its address.
    pub pc: u64,
    /// Its size in bytes.
    pub size: u8,
    /// Its packed operation id.
    pub op: u16,
    /// Its raw encoding.
    pub raw: u32,
    /// Its effect.
    pub statements: Vec<Stmt>,
    /// Where control goes next.
    pub terminator: Terminator,
    /// Its source location, where debug information has one.
    pub source_loc: Option<SourceLoc>,
}

/// A lifted block: instructions from `start_pc` up to `end_pc` (exclusive).
pub struct BlockIR {
    pub start_pc: u64,
    pub end_pc: u64,
    pub instructions: Vec<InstrIR>,
}

impl Expr {
    /// An immediate.
    pub fn imm(v: u64) -> (r: Expr)
        ensures
            r == Expr::Imm(v),
    {
        Expr::Imm(v)
    }

    /// A read of guest register `r`.
    pub fn reg(r: u8) -> (e: Expr)
        ensures
            e == Expr::Read(ReadExpr::Reg(r)),
    {
        Expr::Read(ReadExpr::Reg(r))
    }

    /// The sum of two expressions.
    pub fn add(left: Expr, right: Expr) -> (r: Expr)
        ensures
            r == (Expr::Binary { op: BinaryOp::Add, left: Box::new(left), right: Box::new(right) }),
    {
        Expr::Binary { op: BinaryOp::Add, left: Box::new(left), right: Box::new(right) }
    }
}

/// Two's-complement reading of `a`, a value below `2 * half` (`half` is
/// 2^31 for 32-bit registers, 2^63 for 64-bit ones).
pub open spec fn signed_in(a: int, half: int) -> int {
    if a >= half {
        a - 2 * half
    } else {
        a
    }
}

/// Whether a RISC-V comparison holds between two register values of the
/// width that `half` gives.
pub open spec fn riscv_compare_holds(op: BinaryOp, a: int, b: int, half: int) -> bool {
    match op {
        BinaryOp::Eq => a == b,
        BinaryOp::Ne => a != b,
        BinaryOp::Lt => signed_in(a, half) < signed_in(b, half),
        BinaryOp::Ge => signed_in(a, half) >= signed_in(b, half),
        BinaryOp::Ltu => a < b,
        BinaryOp::Geu => a >= b,
        _ => false,
    }
}

} // verus!
