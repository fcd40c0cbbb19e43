//! Conditional branches of the ARM64 backend: a comparison (or a
//! conjunction or disjunction of two) becomes a compare and a conditional
//! branch, without materializing the boolean.

use vstd::prelude::*;

use super::emitter::reg32;
use super::expr::{
    bin, esize, expr_gen, fits32, fx, gen, is_zero, label_gen, label_line, lemma_bin, put,
    restore_gen,
    signed_of, spill_left_gen, tmp1, tmp2, width_reg, Gen,
};
use super::lower::{addsub_parts, compare_imm_text, op2};
use super::{line, Arm64Emitter};
use crate::ir::{riscv_compare_holds, signed_in, BinaryOp, Expr, Stmt, WriteTarget};
use crate::text::{push_str, string_of};

verus! {

/// Whether an operation is one of the six comparisons.
pub open spec fn is_cmp_op(op: BinaryOp) -> bool {
    op == BinaryOp::Eq || op == BinaryOp::Ne || op == BinaryOp::Lt || op == BinaryOp::Ge || op
        == BinaryOp::Ltu || op == BinaryOp::Geu
}

/// Whether an expression is a comparison.
pub open spec fn is_cmp(x: Expr) -> bool {
    x matches Expr::Binary { op, .. } && is_cmp_op(op)
}

/// The ARM64 condition under which a comparison (or its negation) holds.
pub open spec fn cond_name(op: BinaryOp, invert: bool) -> Option<Seq<char>> {
    if (op == BinaryOp::Eq && !invert) || (op == BinaryOp::Ne && invert) {
        Some("eq"@)
    } else if (op == BinaryOp::Ne && !invert) || (op == BinaryOp::Eq && invert) {
        Some("ne"@)
    } else if (op == BinaryOp::Lt && !invert) || (op == BinaryOp::Ge && invert) {
        Some("lt"@)
    } else if (op == BinaryOp::Ge && !invert) || (op == BinaryOp::Lt && invert) {
        Some("ge"@)
    } else if (op == BinaryOp::Ltu && !invert) || (op == BinaryOp::Geu && invert) {
        Some("lo"@)
    } else if (op == BinaryOp::Geu && !invert) || (op == BinaryOp::Ltu && invert) {
        Some("hs"@)
    } else {
        None
    }
}

/// Whether an immediate can be compared against: its signed value is not
/// the most negative one, and for a 32-bit guest a negative one has a
/// 12-bit encoding.
pub open spec fn cmp_imm_ok(f: Arm64Emitter, v: u64) -> bool {
    let s = signed_of(f, v);
    &&& s != i64::MIN
    &&& f.is_rv32() ==> 0 <= s <= 0xFFFF_FFFF || -0xFFF <= s < 0 || addsub_parts(s) is Some
}

/// Whether every immediate that a branch condition compares against can be
/// compared against.
pub open spec fn branch_ok(f: Arm64Emitter, x: Expr) -> bool
    decreases x,
{
    match x {
        Expr::Binary { op, left, right } => {
            if (op == BinaryOp::And || op == BinaryOp::Or) && is_cmp(*left) && is_cmp(*right) {
                branch_ok(f, *left) && branch_ok(f, *right)
            } else if is_cmp_op(op) && !is_zero(*right) {
                match *right {
                    Expr::Imm(v) => cmp_imm_ok(f, v),
                    _ => true,
                }
            } else {
                true
            }
        },
        _ => true,
    }
}

/// What lowering a branch condition needs of the emitter.
pub open spec fn branchable(e: Arm64Emitter, x: Expr) -> bool {
    &&& e.wf()
    &&& e.label_counter + 4 * esize(x) <= usize::MAX
    &&& e.is_rv32() ==> fits32(x)
    &&& branch_ok(fx(e), x)
}

/// A comparison of `left` (in `lr`) with the right operand.
pub open spec fn compare_gen(f: Arm64Emitter, g: Gen, right: Expr, lr: Seq<char>) -> Gen
    decreases 32 * esize(right) + 16,
{
    if is_zero(right) {
        (compare_imm_text(g.0, lr, 0, f.is_rv32()), g.1, g.2, g.3)
    } else {
        match right {
            Expr::Imm(v) => (compare_imm_text(g.0, lr, signed_of(f, v), f.is_rv32()), g.1, g.2, g.3),
            _ => {
                let b = expr_gen(f, g, right, tmp2(f));
                put(b.0, op2("cmp"@, lr, width_reg(f, b.1)))
            },
        }
    }
}

/// A branch to `label` taken when `cond` holds (or, inverted, when it does
/// not): the new changing part and whether the condition had a lowering.
pub open spec fn compare_branch_gen(f: Arm64Emitter, g: Gen, cond: Expr, label: Seq<char>, invert: bool) -> (
    Gen,
    bool,
)
    decreases 32 * esize(cond) + 17,
{
    match cond {
        Expr::Binary { op, left, right } => compare_binary_gen(f, g, op, *left, *right, label, invert),
        _ => (g, false),
    }
}

/// The branch of a binary condition `l op r`.
pub open spec fn compare_binary_gen(
    f: Arm64Emitter,
    g: Gen,
    op: BinaryOp,
    l: Expr,
    r: Expr,
    label: Seq<char>,
    invert: bool,
) -> (Gen, bool)
    decreases 32 * (1 + esize(l) + esize(r)) + 16,
{
    if (op == BinaryOp::And || op == BinaryOp::Or) && is_cmp(l) && is_cmp(r) {
        logic_gen(f, g, op, l, r, label, invert)
    } else {
        match cond_name(op, invert) {
            None => (g, false),
            Some(cc) => {
                let a = expr_gen(f, g, l, tmp1(f));
                let lr = width_reg(f, a.1);
                if (op == BinaryOp::Eq || op == BinaryOp::Ne) && is_zero(r) {
                    let b = if cc == "eq"@ {
                        "cbz"@
                    } else {
                        "cbnz"@
                    };
                    (put(a.0, line(b + " "@ + lr + ", "@ + label)), true)
                } else {
                    let s = spill_left_gen(f, a.0, r, lr);
                    let c = compare_gen(f, s.0, r, lr);
                    let d = restore_gen(f, c, s.1, lr);
                    (put(d, line("b."@ + cc + " "@ + label)), true)
                }
            },
        }
    }
}

/// A conjunction or disjunction of two comparisons as branches, with a
/// local label to skip over the second test where needed.
pub open spec fn logic_gen(
    f: Arm64Emitter,
    g: Gen,
    op: BinaryOp,
    l: Expr,
    r: Expr,
    label: Seq<char>,
    invert: bool,
) -> (Gen, bool)
    decreases 32 * (1 + esize(l) + esize(r)) + 15,
{
    let (g1, skip) = label_gen(g, "bool_skip"@);
    if op == BinaryOp::Or && !invert {
        let a = compare_branch_gen(f, g1, l, label, false);
        let b = compare_branch_gen(f, a.0, r, label, false);
        (b.0, true)
    } else if op == BinaryOp::Or {
        let a = compare_branch_gen(f, g1, l, skip, false);
        let b = compare_branch_gen(f, a.0, r, skip, false);
        (put(put(b.0, line("b "@ + label)), label_line(skip)), true)
    } else if !invert {
        let a = compare_branch_gen(f, g1, l, skip, true);
        let b = compare_branch_gen(f, a.0, r, label, false);
        (put(b.0, label_line(skip)), true)
    } else {
        let a = compare_branch_gen(f, g1, l, label, true);
        let b = compare_branch_gen(f, a.0, r, label, true);
        (b.0, true)
    }
}

/// The comparison that the last statement of an instruction writes to the
/// temporary that a branch condition reads.
pub open spec fn temp_cmp(stmts: Seq<Stmt>, cond: Expr) -> Option<(Expr, Expr, BinaryOp)> {
    match cond {
        Expr::Read(crate::ir::ReadExpr::Temp(idx)) => {
            if stmts.len() == 0 {
                None
            } else {
                match stmts.last() {
                    Stmt::Write { target: WriteTarget::Temp(t), value: Expr::Binary { op, left, right } } => {
                        if t == idx && is_cmp_op(op) {
                            Some((*left, *right, op))
                        } else {
                            None
                        }
                    },
                    _ => None,
                }
            }
        },
        _ => None,
    }
}

impl Arm64Emitter {
    /// Whether an expression is a comparison.
    pub fn is_cmp_expr(x: &Expr) -> (r: bool)
        ensures
            r == is_cmp(*x),
    {
        match x {
            Expr::Binary { op, .. } => Self::is_cmp_operation(*op),
            _ => false,
        }
    }

    /// Whether an operation is a comparison.
    fn is_cmp_operation(op: BinaryOp) -> (r: bool)
        ensures
            r == is_cmp_op(op),
    {
        match op {
            BinaryOp::Eq | BinaryOp::Ne | BinaryOp::Lt | BinaryOp::Ge | BinaryOp::Ltu
            | BinaryOp::Geu => true,
            _ => false,
        }
    }

    /// The ARM64 condition of a comparison, or of its negation.
    fn cond_code(op: BinaryOp, invert: bool) -> (r: Option<&'static str>)
        ensures
            r matches Some(s) ==> cond_name(op, invert) == Some(s@),
            r is None ==> cond_name(op, invert) is None,
    {
        proof {
            reveal_strlit("eq");
            reveal_strlit("ne");
            reveal_strlit("lt");
            reveal_strlit("ge");
            reveal_strlit("lo");
            reveal_strlit("hs");
        }
        match (op, invert) {
            (BinaryOp::Eq, false) | (BinaryOp::Ne, true) => Some("eq"),
            (BinaryOp::Ne, false) | (BinaryOp::Eq, true) => Some("ne"),
            (BinaryOp::Lt, false) | (BinaryOp::Ge, true) => Some("lt"),
            (BinaryOp::Ge, false) | (BinaryOp::Lt, true) => Some("ge"),
            (BinaryOp::Ltu, false) | (BinaryOp::Geu, true) => Some("lo"),
            (BinaryOp::Geu, false) | (BinaryOp::Ltu, true) => Some("hs"),
            _ => None,
        }
    }

    /// Compare the left operand (in `lr`) with the right one.
    fn emit_compare_right(&mut self, right: &Expr, lr: &str)
        requires
            old(self).wf(),
            old(self).label_counter + 4 * esize(*right) <= usize::MAX,
            old(self).is_rv32() ==> fits32(*right),
            !is_zero(*right) ==> (*right matches Expr::Imm(v) ==> cmp_imm_ok(fx(*old(self)), v)),
        ensures
            old(self).fixed(*final(self)),
            gen(*final(self)) == compare_gen(fx(*old(self)), gen(*old(self)), *right, lr@),
            final(self).label_counter <= old(self).label_counter + 4 * esize(*right),
        decreases 32 * esize(*right) + 16,
    {
        let ghost f = fx(*self);
        if Self::is_zero_expr(right) {
            self.emit_cmp_with_imm(lr, 0);
            return ;
        }
        match right {
            Expr::Imm(v) => {
                let imm = self.signed_imm(*v);
                assert(imm == signed_of(f, *v));
                self.emit_cmp_with_imm(lr, imm);
            },
            _ => {
                proof {
                    reveal_strlit("x1");
                }
                let t2 = self.temp2();
                let rr = self.emit_expr(right, t2);
                let rw = if self.rv32() {
                    Self::reg_32(rr.as_str())
                } else {
                    rr
                };
                self.emit_op2("cmp", lr, rw.as_str());
            },
        }
    }

    /// Branch to `label` when `cond` holds (when it does not, if `invert`).
    /// Returns whether the condition had such a lowering; nothing is emitted
    /// when it had not.
    pub fn try_emit_compare_branch(&mut self, cond: &Expr, label: &str, invert: bool) -> (r: bool)
        requires
            branchable(*old(self), *cond),
        ensures
            old(self).fixed(*final(self)),
            (gen(*final(self)), r) == compare_branch_gen(
                fx(*old(self)),
                gen(*old(self)),
                *cond,
                label@,
                invert,
            ),
            final(self).label_counter <= old(self).label_counter + 4 * esize(*cond),
        decreases 32 * esize(*cond) + 17,
    {
        match cond {
            Expr::Binary { op, left, right } => self.try_emit_compare_binary(
                *op,
                left,
                right,
                label,
                invert,
            ),
            _ => false,
        }
    }

    /// The branch of a binary condition `left op right`.
    pub fn try_emit_compare_binary(
        &mut self,
        op: BinaryOp,
        left: &Expr,
        right: &Expr,
        label: &str,
        invert: bool,
    ) -> (r: bool)
        requires
            branchable(*old(self), bin(op, *left, *right)),
        ensures
            old(self).fixed(*final(self)),
            (gen(*final(self)), r) == compare_binary_gen(
                fx(*old(self)),
                gen(*old(self)),
                op,
                *left,
                *right,
                label@,
                invert,
            ),
            final(self).label_counter <= old(self).label_counter + 4 * (1 + esize(*left) + esize(
                *right,
            )),
        decreases 32 * (1 + esize(*left) + esize(*right)) + 16,
    {
        let ghost f = fx(*self);
        proof {
            lemma_bin(op, *left, *right);
        }
        let is_logic = match op {
            BinaryOp::And | BinaryOp::Or => true,
            _ => false,
        };
        if is_logic && Self::is_cmp_expr(left) && Self::is_cmp_expr(right) {
            return self.try_emit_compare_logic(op, left, right, label, invert);
        }
        let cc = match Self::cond_code(op, invert) {
            Some(c) => c,
            None => {
                return false;
            },
        };
        proof {
            reveal_strlit("eq");
            reveal_strlit("cbz");
            reveal_strlit("cbnz");
            reveal_strlit("x0");
        }
        let t1 = self.temp1();
        let lr0 = self.emit_expr(left, t1);
        let lr = if self.rv32() {
            Self::reg_32(lr0.as_str())
        } else {
            lr0
        };
        let is_eq = match op {
            BinaryOp::Eq | BinaryOp::Ne => true,
            _ => false,
        };
        if is_eq && Self::is_zero_expr(right) {
            let mut l = if crate::text::str_eq(cc, "eq") {
                string_of("cbz")
            } else {
                string_of("cbnz")
            };
            push_str(&mut l, " ");
            push_str(&mut l, lr.as_str());
            push_str(&mut l, ", ");
            push_str(&mut l, label);
            self.emit(l.as_str());
            return true;
        }
        let spill = self.maybe_spill_left(right, lr.as_str());
        self.emit_compare_right(right, lr.as_str());
        self.restore_spilled_left(spill, lr.as_str());
        let mut l = string_of("b.");
        push_str(&mut l, cc);
        push_str(&mut l, " ");
        push_str(&mut l, label);
        self.emit(l.as_str());
        true
    }

    /// A conjunction or disjunction of two comparisons as branches.
    #[verifier::rlimit(40)]
    fn try_emit_compare_logic(
        &mut self,
        op: BinaryOp,
        left: &Expr,
        right: &Expr,
        label: &str,
        invert: bool,
    ) -> (r: bool)
        requires
            op == BinaryOp::And || op == BinaryOp::Or,
            old(self).wf(),
            old(self).label_counter + 4 * (1 + esize(*left) + esize(*right)) <= usize::MAX,
            old(self).is_rv32() ==> fits32(*left) && fits32(*right),
            branch_ok(fx(*old(self)), *left),
            branch_ok(fx(*old(self)), *right),
        ensures
            old(self).fixed(*final(self)),
            (gen(*final(self)), r) == logic_gen(
                fx(*old(self)),
                gen(*old(self)),
                op,
                *left,
                *right,
                label@,
                invert,
            ),
            final(self).label_counter <= old(self).label_counter + 4 * (1 + esize(*left) + esize(
                *right,
            )),
        decreases 32 * (1 + esize(*left) + esize(*right)) + 15,
    {
        let skip = self.next_label("bool_skip");
        let is_or = match op {
            BinaryOp::Or => true,
            _ => false,
        };
        if is_or && !invert {
            self.try_emit_compare_branch(left, label, false);
            self.try_emit_compare_branch(right, label, false);
        } else if is_or {
            self.try_emit_compare_branch(left, skip.as_str(), false);
            self.try_emit_compare_branch(right, skip.as_str(), false);
            let mut l = string_of("b ");
            push_str(&mut l, label);
            self.emit(l.as_str());
            self.emit_label(skip.as_str());
        } else if !invert {
            self.try_emit_compare_branch(left, skip.as_str(), true);
            self.try_emit_compare_branch(right, label, false);
            self.emit_label(skip.as_str());
        } else {
            self.try_emit_compare_branch(left, label, true);
            self.try_emit_compare_branch(right, label, true);
        }
        true
    }

    /// The comparison that the last statement writes to the temporary a
    /// branch condition reads, if it is one.
    pub fn cmp_from_temp_branch<'a>(stmts: &'a Vec<Stmt>, cond: &Expr) -> (r: Option<
        (&'a Expr, &'a Expr, BinaryOp),
    >)
        ensures
            r is None ==> temp_cmp(stmts@, *cond) is None,
            r matches Some(t) ==> temp_cmp(stmts@, *cond) == Some((*t.0, *t.1, t.2)),
    {
        let idx = match cond {
            Expr::Read(crate::ir::ReadExpr::Temp(i)) => *i,
            _ => {
                return None;
            },
        };
        if stmts.len() == 0 {
            return None;
        }
        let last = &stmts[stmts.len() - 1];
        match last {
            Stmt::Write { target: WriteTarget::Temp(t), value: Expr::Binary { op, left, right } } => {
                if *t == idx && Self::is_cmp_operation(*op) {
                    Some((&**left, &**right, *op))
                } else {
                    None
                }
            },
            _ => None,
        }
    }
}

/// The flags (N, Z, C, V) that ARM64 `cmp a, b`, the subtraction `a - b`,
/// sets on registers of the width `half` gives: N is the top bit of the
/// truncated difference, Z whether that is zero, C whether the unsigned
/// subtraction borrows nothing, V whether the signed difference overflows.
pub open spec fn cmp_flags(a: int, b: int, half: int) -> (bool, bool, bool, bool) {
    let u = if a >= b {
        a - b
    } else {
        a - b + 2 * half
    };
    let d = signed_in(a, half) - signed_in(b, half);
    (u >= half, u == 0, a >= b, d >= half || d < -half)
}

/// Whether the ARM64 condition named `c` holds after `cmp a, b`, by the
/// architecture's table of conditions over the flags.
pub open spec fn arm64_condition_holds(c: Seq<char>, a: int, b: int, half: int) -> bool {
    let (n, z, cf, v) = cmp_flags(a, b, half);
    if c == "eq"@ {
        z
    } else if c == "ne"@ {
        !z
    } else if c == "hs"@ {
        cf
    } else if c == "lo"@ {
        !cf
    } else if c == "mi"@ {
        n
    } else if c == "pl"@ {
        !n
    } else if c == "vs"@ {
        v
    } else if c == "vc"@ {
        !v
    } else if c == "hi"@ {
        cf && !z
    } else if c == "ls"@ {
        !(cf && !z)
    } else if c == "ge"@ {
        n == v
    } else if c == "lt"@ {
        n != v
    } else if c == "gt"@ {
        !z && n == v
    } else if c == "le"@ {
        !(!z && n == v)
    } else {
        false
    }
}

/// The condition chosen for a comparison holds after `cmp left, right`
/// exactly when the RISC-V comparison holds (or, for an inverted branch,
/// exactly when it does not), for 32-bit and for 64-bit registers; every
/// comparison has a condition.
pub proof fn law_cond_code_matches_comparison(op: BinaryOp, invert: bool, a: int, b: int, half: int)
    requires
        half == 0x8000_0000 || half == 0x8000_0000_0000_0000,
        0 <= a < 2 * half,
        0 <= b < 2 * half,
    ensures
        is_cmp_op(op) <==> cond_name(op, invert) is Some,
        cond_name(op, invert) matches Some(c) ==> (arm64_condition_holds(c, a, b, half) == (
        riscv_compare_holds(op, a, b, half) != invert)),
{
    reveal_strlit("eq");
    reveal_strlit("ne");
    reveal_strlit("hs");
    reveal_strlit("lo");
    reveal_strlit("mi");
    reveal_strlit("pl");
    reveal_strlit("vs");
    reveal_strlit("vc");
    reveal_strlit("hi");
    reveal_strlit("ls");
    reveal_strlit("ge");
    reveal_strlit("lt");
    reveal_strlit("gt");
    reveal_strlit("le");
    assert("eq"@[0] == 'e' && "eq"@[1] == 'q');
    assert("ne"@[0] == 'n' && "ne"@[1] == 'e');
    assert("hs"@[0] == 'h' && "hs"@[1] == 's');
    assert("lo"@[0] == 'l' && "lo"@[1] == 'o');
    assert("mi"@[0] == 'm' && "mi"@[1] == 'i');
    assert("pl"@[0] == 'p' && "pl"@[1] == 'l');
    assert("vs"@[0] == 'v' && "vs"@[1] == 's');
    assert("vc"@[0] == 'v' && "vc"@[1] == 'c');
    assert("hi"@[0] == 'h' && "hi"@[1] == 'i');
    assert("ls"@[0] == 'l' && "ls"@[1] == 's');
    assert("ge"@[0] == 'g' && "ge"@[1] == 'e');
    assert("lt"@[0] == 'l' && "lt"@[1] == 't');
    assert("gt"@[0] == 'g' && "gt"@[1] == 't');
    assert("le"@[0] == 'l' && "le"@[1] == 'e');
    let (n, z, cf, v) = cmp_flags(a, b, half);
    assert(z == (a == b));
    assert((n != v) == (signed_in(a, half) < signed_in(b, half)));
    if let Some(c) = cond_name(op, invert) {
        assert(arm64_condition_holds(c, a, b, half) == (riscv_compare_holds(op, a, b, half) != invert));
    }
}

} // verus!
