//! Statement lowering for the ARM64 backend: writes to guest registers,
//! memory and state fields, conditionals, and helper calls.

use vstd::prelude::*;

use super::branch::{branch_ok, branchable, compare_branch_gen};
use super::emitter::{add_offset_text, is_w_reg, lemma_hot_wide, reg32, reg64, reg_off, trace_mem_text, trace_reg_text, TEMP_SLOTS, TEMP_SLOT_BYTES};
use super::expr::{
    all_fit32, apply_gen, as_addr_gen, comment_line, esize, expr_gen, extern_call_gen, fits32, fx,
    gen, label_gen, label_line, lemma_esize_pos, lemma_fx, lowerable, put, sizes, tmp1, tmp2, width_reg, Gen,
};
use super::htif::htif_gen;
use super::lower::op2;
use super::{line, mem_op, Arm64Emitter};
use crate::config::HTIF_ENABLED;
use crate::ir::{Expr, Stmt, WriteTarget};
use crate::registers::{MEMORY_PTR, STATE_PTR};
use crate::text::{decimal, push_decimal, push_str, str_eq, string_of};

verus! {

/// The size of a statement: its nodes and those of its expressions.
pub open spec fn ssize(s: Stmt) -> nat
    decreases s, 0int,
{
    match s {
        Stmt::Write { target, value } => 1 + esize(value) + match target {
            WriteTarget::Mem { base, .. } => esize(base),
            _ => 0,
        },
        Stmt::If { cond, then_stmts, else_stmts } => 1 + esize(cond) + ssizes(
            then_stmts@,
            then_stmts@.len() as int,
        ) + ssizes(else_stmts@, else_stmts@.len() as int),
        Stmt::ExternCall { fn_name, args } => 1 + sizes(args@, args@.len() as int),
    }
}

/// The sizes of the first `n` statements, summed.
pub open spec fn ssizes(ss: Seq<Stmt>, n: int) -> nat
    decreases ss, n,
{
    if n <= 0 || n > ss.len() {
        0
    } else {
        ssizes(ss, n - 1) + ssize(ss[n - 1])
    }
}

/// What lowering a statement needs beyond room for its labels: immediates
/// of the register width for a 32-bit guest, and branch conditions whose
/// immediates can be compared against.
pub open spec fn stmt_ok(f: Arm64Emitter, s: Stmt) -> bool
    decreases s, 0int,
{
    match s {
        Stmt::Write { target, value } => f.is_rv32() ==> fits32(value) && match target {
            WriteTarget::Mem { base, .. } => fits32(base),
            _ => true,
        },
        Stmt::If { cond, then_stmts, else_stmts } => {
            &&& f.is_rv32() ==> fits32(cond)
            &&& branch_ok(f, cond)
            &&& stmts_ok(f, then_stmts@, then_stmts@.len() as int)
            &&& stmts_ok(f, else_stmts@, else_stmts@.len() as int)
        },
        Stmt::ExternCall { fn_name, args } => f.is_rv32() ==> all_fit32(args@, args@.len() as int),
    }
}

/// Whether the first `n` statements can be lowered.
pub open spec fn stmts_ok(f: Arm64Emitter, ss: Seq<Stmt>, n: int) -> bool
    decreases ss, n,
{
    if n <= 0 || n > ss.len() {
        true
    } else {
        stmts_ok(f, ss, n - 1) && stmt_ok(f, ss[n - 1])
    }
}

/// What lowering a statement needs of the emitter.
pub open spec fn stmt_lowerable(e: Arm64Emitter, s: Stmt) -> bool {
    &&& e.wf()
    &&& e.label_counter + 4 * ssize(s) <= usize::MAX
    &&& stmt_ok(fx(e), s)
}

/// The cold cache forgets a guest register that was written.
pub open spec fn cold_drop(g: Gen, reg: u8) -> Gen {
    (
        g.0,
        g.1,
        if g.2 == Some(reg) {
            None
        } else {
            g.2
        },
        g.3,
    )
}

/// The guest memory operand at the address in `x0`.
pub open spec fn mem_operand() -> Seq<char> {
    "["@ + MEMORY_PTR@ + ", x0]"@
}

/// A write of a guest register (none for `x0`): the value goes straight
/// into a hot register, or through the first temporary to the state.
pub open spec fn write_reg_gen(f: Arm64Emitter, g: Gen, reg: u8, value: Expr) -> Gen {
    if reg == 0 {
        g
    } else {
        match f.hot_name(reg as int) {
            Some(arm) => {
                let a = expr_gen(f, g, value, arm@);
                let g1 = if a.1 != arm@ {
                    put(a.0, op2("mov"@, arm@, a.1))
                } else {
                    a.0
                };
                cold_drop(put(g1, trace_reg_text(f, reg, a.1)), reg)
            },
            None => {
                let a = expr_gen(f, g, value, tmp1(f));
                let g1 = put(
                    a.0,
                    line(mem_op("str"@, a.1, STATE_PTR@, reg_off(f.layout, reg as int))),
                );
                cold_drop(put(g1, trace_reg_text(f, reg, a.1)), reg)
            },
        }
    }
}

/// The instruction that stores `store` with a width.
pub open spec fn store_line(store: Seq<char>, width: u8) -> Seq<char> {
    if width == 1 {
        op2("strb"@, reg32(store), mem_operand())
    } else if width == 2 {
        op2("strh"@, reg32(store), mem_operand())
    } else if width == 8 {
        op2("str"@, reg64(store), mem_operand())
    } else {
        op2("str"@, reg32(store), mem_operand())
    }
}

/// A store to guest memory: the value into the second temporary (or kept
/// where it is), the address into `x0`, the tohost check where HTIF is on
/// and the width can be a tohost write, the address mode, the trace, the
/// store.
pub open spec fn write_mem_gen(f: Arm64Emitter, g: Gen, base: Expr, offset: i16, width: u8, value: Expr) -> Gen {
    let htif = f.config.flags.has(HTIF_ENABLED) && (width == 4 || width == 8);
    let (g1, store) = store_src_gen(f, g, value, htif);
    let g2 = mem_addr_gen(f, g1, base, offset);
    let g3 = if htif {
        htif_gen(f, g2)
    } else {
        g2
    };
    let g4 = apply_gen(f, g3, "x0"@);
    put(put(g4, trace_mem_text(f, "x0"@, store, width, true)), store_line(store, width))
}

/// The value of a store lowered into the second temporary, or kept where it
/// is unless the tohost check needs it in `x1`: the new changing part and
/// the register that holds it.
pub open spec fn store_src_gen(f: Arm64Emitter, g: Gen, value: Expr, htif: bool) -> (Gen, Seq<char>) {
    let t2 = tmp2(f);
    let a = expr_gen(f, g, value, t2);
    let v = a.1;
    if v == "x1"@ || v == "w1"@ {
        (a.0, t2)
    } else if v == "x0"@ || v == "w0"@ {
        (put(a.0, op2("mov"@, t2, v)), t2)
    } else if htif {
        (put(a.0, line("mov x1, "@ + reg64(v))), "x1"@)
    } else {
        (a.0, v)
    }
}

/// The address `base + offset` of a store lowered into `x0`.
pub open spec fn mem_addr_gen(f: Arm64Emitter, g: Gen, base: Expr, offset: i16) -> Gen {
    let b = as_addr_gen(f, g, base);
    if offset != 0 {
        put(b.0, add_offset_text("x0"@, b.1, offset as i64))
    } else if b.1 != "x0"@ {
        put(b.0, line("mov x0, "@ + b.1))
    } else {
        b.0
    }
}

/// A value lowered into the first temporary and stored with `op` to a slot
/// of the state or of the stack.
pub open spec fn store_value_gen(f: Arm64Emitter, g: Gen, value: Expr, op: Seq<char>, narrow: bool, base: Seq<char>, off: int) -> Gen {
    let a = expr_gen(f, g, value, tmp1(f));
    put(
        a.0,
        line(
            mem_op(
                op,
                if narrow {
                    reg32(a.1)
                } else {
                    a.1
                },
                base,
                off,
            ),
        ),
    )
}

/// A write to a target.
pub open spec fn write_gen(f: Arm64Emitter, g: Gen, target: WriteTarget, value: Expr) -> Gen {
    match target {
        WriteTarget::Reg(reg) => write_reg_gen(f, g, reg, value),
        WriteTarget::Mem { base, offset, width } => write_mem_gen(f, g, base, offset, width, value),
        WriteTarget::Pc => store_value_gen(
            f,
            g,
            value,
            "str"@,
            false,
            STATE_PTR@,
            f.layout.offset_pc as int,
        ),
        WriteTarget::Exited => put(
            g,
            line("mov w0, #1"@) + line(
                mem_op("strb"@, "w0"@, STATE_PTR@, f.layout.offset_has_exited as int),
            ),
        ),
        WriteTarget::ExitCode => store_value_gen(
            f,
            g,
            value,
            "strb"@,
            true,
            STATE_PTR@,
            f.layout.offset_exit_code as int,
        ),
        WriteTarget::Temp(idx) => if idx < TEMP_SLOTS {
            store_value_gen(
                f,
                g,
                value,
                "str"@,
                f.is_rv32(),
                "sp"@,
                idx * TEMP_SLOT_BYTES,
            )
        } else {
            let a = expr_gen(f, g, value, tmp1(f));
            put(a.0, comment_line("temp "@ + decimal(idx as nat) + " out of range"@))
        },
        WriteTarget::ResAddr => store_value_gen(
            f,
            g,
            value,
            "str"@,
            f.is_rv32(),
            STATE_PTR@,
            f.layout.offset_reservation_addr as int,
        ),
        WriteTarget::ResValid => store_value_gen(
            f,
            g,
            value,
            "strb"@,
            true,
            STATE_PTR@,
            f.layout.offset_reservation_valid as int,
        ),
        WriteTarget::Csr(c) => put(
            g,
            comment_line("unsupported write: Csr("@ + decimal(c as nat) + ")"@),
        ),
    }
}

/// A statement lowered.
pub open spec fn stmt_gen(f: Arm64Emitter, g: Gen, s: Stmt) -> Gen
    decreases s, 0int,
{
    match s {
        Stmt::Write { target, value } => write_gen(f, g, target, value),
        Stmt::If { cond, then_stmts, else_stmts } => {
            let (g1, else_l) = label_gen(g, "if_else"@);
            let (g2, end_l) = label_gen(g1, "if_end"@);
            let c = compare_branch_gen(f, g2, cond, else_l, true);
            let g3 = if c.1 {
                c.0
            } else {
                let a = expr_gen(f, g2, cond, tmp1(f));
                put(a.0, line("cbz "@ + a.1 + ", "@ + else_l))
            };
            let g4 = stmts_gen(f, g3, then_stmts@, then_stmts@.len() as int);
            let has_else = else_stmts@.len() > 0;
            let g5 = if has_else {
                put(g4, line("b "@ + end_l))
            } else {
                g4
            };
            let g6 = stmts_gen(f, put(g5, label_line(else_l)), else_stmts@, else_stmts@.len() as int);
            if has_else {
                put(g6, label_line(end_l))
            } else {
                g6
            }
        },
        Stmt::ExternCall { fn_name, args } => extern_stmt_gen(f, g, fn_name@, args@),
    }
}

/// A helper call made for its effect: a comment naming it, the cold cache
/// forgotten, the call.
pub open spec fn extern_stmt_gen(f: Arm64Emitter, g: Gen, name: Seq<char>, args: Seq<Expr>) -> Gen {
    let g1 = put(g, comment_line("extern call: "@ + name));
    extern_call_gen(f, (g1.0, g1.1, None, g1.3), name, args).0
}

/// The first `n` statements lowered in order.
pub open spec fn stmts_gen(f: Arm64Emitter, g: Gen, ss: Seq<Stmt>, n: int) -> Gen
    decreases ss, n,
{
    if n <= 0 || n > ss.len() {
        g
    } else {
        stmt_gen(f, stmts_gen(f, g, ss, n - 1), ss[n - 1])
    }
}

/// Every statement has at least one node; each of the first `n` sizes is
/// at most their sum, and so is every shorter sum with the next size.
pub proof fn lemma_ssizes(ss: Seq<Stmt>, n: int, k: int)
    requires
        0 <= k < n <= ss.len(),
    ensures
        ssize(ss[k]) >= 1,
        ssizes(ss, k) + ssize(ss[k]) <= ssizes(ss, n),
        ssizes(ss, k + 1) == ssizes(ss, k) + ssize(ss[k]),
    decreases n,
{
    if k < n - 1 {
        lemma_ssizes(ss, n - 1, k);
    }
}

/// Each of the first `n` statements can be lowered when all can.
pub proof fn lemma_stmts_ok(f: Arm64Emitter, ss: Seq<Stmt>, n: int, k: int)
    requires
        0 <= k < n <= ss.len(),
        stmts_ok(f, ss, n),
    ensures
        stmt_ok(f, ss[k]),
    decreases n,
{
    if k < n - 1 {
        lemma_stmts_ok(f, ss, n - 1, k);
    }
}

impl Arm64Emitter {
    /// Lower a statement.
    pub fn emit_stmt(&mut self, stmt: &Stmt)
        requires
            stmt_lowerable(*old(self), *stmt),
        ensures
            old(self).fixed(*final(self)),
            gen(*final(self)) == stmt_gen(fx(*old(self)), gen(*old(self)), *stmt),
            final(self).label_counter <= old(self).label_counter + 4 * ssize(*stmt),
        decreases 2 * ssize(*stmt),
    {
        match stmt {
            Stmt::Write { target, value } => self.emit_write_stmt(target, value),
            Stmt::If { cond, then_stmts, else_stmts } => self.emit_if_stmt(
                cond,
                then_stmts,
                else_stmts,
            ),
            Stmt::ExternCall { fn_name, args } => self.emit_extern_stmt(fn_name.as_str(), args),
        }
    }

    /// Lower a write.
    fn emit_write_stmt(&mut self, target: &WriteTarget, value: &Expr)
        requires
            stmt_lowerable(*old(self), Stmt::Write { target: *target, value: *value }),
        ensures
            old(self).fixed(*final(self)),
            gen(*final(self)) == write_gen(fx(*old(self)), gen(*old(self)), *target, *value),
            final(self).label_counter <= old(self).label_counter + 4 * ssize(
                Stmt::Write { target: *target, value: *value },
            ),
    {
        proof {
            lemma_esize_pos(*value);
        }
        match target {
            WriteTarget::Reg(reg) => self.emit_write_reg(*reg, value),
            WriteTarget::Mem { base, offset, width } => self.emit_write_mem(
                base,
                *offset,
                *width,
                value,
            ),
            WriteTarget::Pc => self.emit_write_pc(value),
            WriteTarget::Exited => self.emit_write_exited(),
            WriteTarget::ExitCode => self.emit_write_exit_code(value),
            WriteTarget::Temp(idx) => self.emit_write_temp(*idx, value),
            WriteTarget::ResAddr => self.emit_write_res_addr(value),
            WriteTarget::ResValid => self.emit_write_res_valid(value),
            WriteTarget::Csr(c) => {
                let mut l = string_of("unsupported write: Csr(");
                push_decimal(&mut l, *c as u64);
                push_str(&mut l, ")");
                self.emit_comment(l.as_str());
            },
        }
    }

    /// Write a guest register (nothing for `x0`).
    fn emit_write_reg(&mut self, reg: u8, value: &Expr)
        requires
            old(self).wf(),
            old(self).label_counter + 4 * esize(*value) <= usize::MAX,
            old(self).is_rv32() ==> fits32(*value),
        ensures
            old(self).fixed(*final(self)),
            gen(*final(self)) == write_reg_gen(fx(*old(self)), gen(*old(self)), reg, *value),
            final(self).label_counter <= old(self).label_counter + 4 * esize(*value),
    {
        if reg == 0 {
            return ;
        }
        proof {
            reveal_strlit("x0");
            if !self.is_rv32() {
                lemma_hot_wide(*self, reg as int);
            }
        }
        match self.reg_map.get(reg) {
            Some(arm) => {
                let v = self.emit_expr(value, arm);
                if !str_eq(v.as_str(), arm) {
                    self.emit_op2("mov", arm, v.as_str());
                }
                self.emit_trace_reg_write(reg, v.as_str());
            },
            None => {
                let t1 = self.temp1();
                let v = self.emit_expr(value, t1);
                self.store_to_rv(reg, v.as_str());
                self.emit_trace_reg_write(reg, v.as_str());
            },
        }
        self.cold_cache_invalidate(reg);
    }

    /// The guest memory operand `[x20, x0]`.
    fn mem_operand_text() -> (r: String)
        ensures
            r@ == mem_operand(),
    {
        let mut s = string_of("[");
        push_str(&mut s, MEMORY_PTR);
        push_str(&mut s, ", x0]");
        s
    }

    /// Store to guest memory at `base + offset`.
    fn emit_write_mem(&mut self, base: &Expr, offset: i16, width: u8, value: &Expr)
        requires
            old(self).wf(),
            old(self).label_counter + 4 * (1 + esize(*value) + esize(*base)) <= usize::MAX,
            old(self).is_rv32() ==> fits32(*value) && fits32(*base),
        ensures
            old(self).fixed(*final(self)),
            gen(*final(self)) == write_mem_gen(
                fx(*old(self)),
                gen(*old(self)),
                *base,
                offset,
                width,
                *value,
            ),
            final(self).label_counter <= old(self).label_counter + 4 * (1 + esize(*value) + esize(
                *base,
            )),
    {
        let htif = self.config.htif_enabled() && (width == 4 || width == 8);
        let store = self.emit_store_source(value, htif);
        self.emit_store_address(base, offset);
        if htif {
            self.emit_htif_check();
        }
        self.apply_address_mode("x0");
        self.emit_trace_mem_access("x0", store.as_str(), width, true);
        let mem = Self::mem_operand_text();
        if width == 1 {
            let v32 = Self::reg_32(store.as_str());
            self.emit_op2("strb", v32.as_str(), mem.as_str());
        } else if width == 2 {
            let v32 = Self::reg_32(store.as_str());
            self.emit_op2("strh", v32.as_str(), mem.as_str());
        } else if width == 8 {
            let v64 = Self::reg_64(store.as_str());
            self.emit_op2("str", v64.as_str(), mem.as_str());
        } else {
            let v32 = Self::reg_32(store.as_str());
            self.emit_op2("str", v32.as_str(), mem.as_str());
        }
    }

    /// Lower the value of a store and return the register that holds it.
    fn emit_store_source(&mut self, value: &Expr, htif: bool) -> (r: String)
        requires
            old(self).wf(),
            old(self).label_counter + 4 * esize(*value) <= usize::MAX,
            old(self).is_rv32() ==> fits32(*value),
        ensures
            old(self).fixed(*final(self)),
            (gen(*final(self)), r@) == store_src_gen(fx(*old(self)), gen(*old(self)), *value, htif),
            final(self).label_counter <= old(self).label_counter + 4 * esize(*value),
    {
        proof {
            reveal_strlit("x0");
            reveal_strlit("x1");
            reveal_strlit("w0");
            reveal_strlit("w1");
        }
        let t2 = self.temp2();
        let v = self.emit_expr(value, t2);
        let is_t2 = str_eq(v.as_str(), "x1") || str_eq(v.as_str(), "w1");
        let is_t1 = str_eq(v.as_str(), "x0") || str_eq(v.as_str(), "w0");
        if is_t2 {
            string_of(t2)
        } else if is_t1 {
            self.emit_op2("mov", t2, v.as_str());
            string_of(t2)
        } else if htif {
            let r64 = Self::reg_64(v.as_str());
            let mut l = string_of("mov x1, ");
            push_str(&mut l, r64.as_str());
            self.emit(l.as_str());
            string_of("x1")
        } else {
            v
        }
    }

    /// Lower the address `base + offset` of a store into `x0`.
    fn emit_store_address(&mut self, base: &Expr, offset: i16)
        requires
            old(self).wf(),
            old(self).label_counter + 4 * esize(*base) <= usize::MAX,
            old(self).is_rv32() ==> fits32(*base),
        ensures
            old(self).fixed(*final(self)),
            gen(*final(self)) == mem_addr_gen(fx(*old(self)), gen(*old(self)), *base, offset),
            final(self).label_counter <= old(self).label_counter + 4 * esize(*base),
    {
        proof {
            reveal_strlit("x0");
        }
        let b = self.emit_expr_as_addr(base);
        if offset != 0 {
            self.emit_add_offset("x0", b.as_str(), offset as i64);
        } else if !str_eq(b.as_str(), "x0") {
            let mut l = string_of("mov x0, ");
            push_str(&mut l, b.as_str());
            self.emit(l.as_str());
        }
    }

    /// Lower a value into the first temporary and store it with `op` at
    /// `[base, #off]` (its 32-bit name when `narrow`).
    fn emit_store_value(&mut self, value: &Expr, op: &str, narrow: bool, base: &str, off: usize)
        requires
            old(self).wf(),
            old(self).label_counter + 4 * esize(*value) <= usize::MAX,
            old(self).is_rv32() ==> fits32(*value),
        ensures
            old(self).fixed(*final(self)),
            gen(*final(self)) == store_value_gen(
                fx(*old(self)),
                gen(*old(self)),
                *value,
                op@,
                narrow,
                base@,
                off as int,
            ),
            final(self).label_counter <= old(self).label_counter + 4 * esize(*value),
    {
        proof {
            reveal_strlit("x0");
        }
        let t1 = self.temp1();
        let v = self.emit_expr(value, t1);
        if narrow {
            let v32 = Self::reg_32(v.as_str());
            self.emit_mem_op(op, v32.as_str(), base, off);
        } else {
            self.emit_mem_op(op, v.as_str(), base, off);
        }
    }

    /// Write the pc field of the state.
    fn emit_write_pc(&mut self, value: &Expr)
        requires
            old(self).wf(),
            old(self).label_counter + 4 * esize(*value) <= usize::MAX,
            old(self).is_rv32() ==> fits32(*value),
        ensures
            old(self).fixed(*final(self)),
            gen(*final(self)) == write_gen(fx(*old(self)), gen(*old(self)), WriteTarget::Pc, *value),
            final(self).label_counter <= old(self).label_counter + 4 * esize(*value),
    {
        let off = self.layout.offset_pc;
        self.emit_store_value(value, "str", false, STATE_PTR, off);
    }

    /// Write the exit code (its low byte).
    fn emit_write_exit_code(&mut self, value: &Expr)
        requires
            old(self).wf(),
            old(self).label_counter + 4 * esize(*value) <= usize::MAX,
            old(self).is_rv32() ==> fits32(*value),
        ensures
            old(self).fixed(*final(self)),
            gen(*final(self)) == write_gen(
                fx(*old(self)),
                gen(*old(self)),
                WriteTarget::ExitCode,
                *value,
            ),
            final(self).label_counter <= old(self).label_counter + 4 * esize(*value),
    {
        let off = self.layout.offset_exit_code;
        self.emit_store_value(value, "strb", true, STATE_PTR, off);
    }

    /// Write a block-local temporary to its stack slot (a comment when the
    /// index has no slot).
    fn emit_write_temp(&mut self, idx: u8, value: &Expr)
        requires
            old(self).wf(),
            old(self).label_counter + 4 * esize(*value) <= usize::MAX,
            old(self).is_rv32() ==> fits32(*value),
        ensures
            old(self).fixed(*final(self)),
            gen(*final(self)) == write_gen(
                fx(*old(self)),
                gen(*old(self)),
                WriteTarget::Temp(idx),
                *value,
            ),
            final(self).label_counter <= old(self).label_counter + 4 * esize(*value),
    {
        let narrow = self.rv32();
        match Self::temp_slot_offset(idx) {
            Some(off) => {
                self.emit_store_value(value, "str", narrow, "sp", off);
            },
            None => {
                proof {
                    reveal_strlit("x0");
                }
                let t1 = self.temp1();
                self.emit_expr(value, t1);
                let mut l = string_of("temp ");
                push_decimal(&mut l, idx as u64);
                push_str(&mut l, " out of range");
                self.emit_comment(l.as_str());
            },
        }
    }

    /// Write the reservation address.
    fn emit_write_res_addr(&mut self, value: &Expr)
        requires
            old(self).wf(),
            old(self).label_counter + 4 * esize(*value) <= usize::MAX,
            old(self).is_rv32() ==> fits32(*value),
        ensures
            old(self).fixed(*final(self)),
            gen(*final(self)) == write_gen(
                fx(*old(self)),
                gen(*old(self)),
                WriteTarget::ResAddr,
                *value,
            ),
            final(self).label_counter <= old(self).label_counter + 4 * esize(*value),
    {
        let narrow = self.rv32();
        let off = self.layout.offset_reservation_addr;
        self.emit_store_value(value, "str", narrow, STATE_PTR, off);
    }

    /// Write the reservation flag (its low byte).
    fn emit_write_res_valid(&mut self, value: &Expr)
        requires
            old(self).wf(),
            old(self).label_counter + 4 * esize(*value) <= usize::MAX,
            old(self).is_rv32() ==> fits32(*value),
        ensures
            old(self).fixed(*final(self)),
            gen(*final(self)) == write_gen(
                fx(*old(self)),
                gen(*old(self)),
                WriteTarget::ResValid,
                *value,
            ),
            final(self).label_counter <= old(self).label_counter + 4 * esize(*value),
    {
        let off = self.layout.offset_reservation_valid;
        self.emit_store_value(value, "strb", true, STATE_PTR, off);
    }

    /// Lower a conditional: a branch to the else part when the condition
    /// fails, the then part, a jump over the else part where there is one.
    fn emit_if_stmt(&mut self, cond: &Expr, then_stmts: &Vec<Stmt>, else_stmts: &Vec<Stmt>)
        requires
            stmt_lowerable(
                *old(self),
                Stmt::If { cond: *cond, then_stmts: *then_stmts, else_stmts: *else_stmts },
            ),
        ensures
            old(self).fixed(*final(self)),
            gen(*final(self)) == stmt_gen(
                fx(*old(self)),
                gen(*old(self)),
                Stmt::If { cond: *cond, then_stmts: *then_stmts, else_stmts: *else_stmts },
            ),
            final(self).label_counter <= old(self).label_counter + 4 * ssize(
                Stmt::If { cond: *cond, then_stmts: *then_stmts, else_stmts: *else_stmts },
            ),
        decreases 2 * ssize(Stmt::If { cond: *cond, then_stmts: *then_stmts, else_stmts: *else_stmts })
            - 1,
    {
        let ghost f = fx(*self);
        let ghost e0 = *self;
        let ghost s = Stmt::If { cond: *cond, then_stmts: *then_stmts, else_stmts: *else_stmts };
        proof {
            reveal_strlit("x0");
            lemma_esize_pos(*cond);
        }
        let ghost g0 = gen(*self);
        let else_label = self.next_label("if_else");
        let end_label = self.next_label("if_end");
        let ghost g2 = gen(*self);
        assert(label_gen(g0, "if_else"@) == (label_gen(g0, "if_else"@).0, else_label@));
        assert(label_gen(label_gen(g0, "if_else"@).0, "if_end"@) == (g2, end_label@));
        proof {
            lemma_fx(e0, *self);
        }
        if !self.try_emit_compare_branch(cond, else_label.as_str(), true) {
            let t1 = self.temp1();
            let c = self.emit_expr(cond, t1);
            let mut l = string_of("cbz ");
            push_str(&mut l, c.as_str());
            push_str(&mut l, ", ");
            push_str(&mut l, else_label.as_str());
            self.emit(l.as_str());
        }
        let ghost g3 = gen(*self);
        let ghost c = compare_branch_gen(f, g2, *cond, else_label@, true);
        assert(g3 == if c.1 {
            c.0
        } else {
            let a = expr_gen(f, g2, *cond, tmp1(f));
            put(a.0, line("cbz "@ + a.1 + ", "@ + else_label@))
        });
        let ghost start = self.label_counter;
        let mut i: usize = 0;
        while i < then_stmts.len()
            invariant
                i <= then_stmts.len(),
                e0.fixed(*self),
                fx(e0) == f,
                f.wf(),
                stmts_ok(f, then_stmts@, then_stmts@.len() as int),
                gen(*self) == stmts_gen(f, g3, then_stmts@, i as int),
                start + 4 * ssizes(then_stmts@, then_stmts@.len() as int) + 4 * ssizes(
                    else_stmts@,
                    else_stmts@.len() as int,
                ) <= e0.label_counter + 4 * ssize(s),
                e0.label_counter + 4 * ssize(s) <= usize::MAX,
                self.label_counter <= start + 4 * ssizes(then_stmts@, i as int),
                s == (Stmt::If { cond: *cond, then_stmts: *then_stmts, else_stmts: *else_stmts }),
            decreases then_stmts.len() - i,
        {
            proof {
                lemma_ssizes(then_stmts@, then_stmts@.len() as int, i as int);
                lemma_stmts_ok(f, then_stmts@, then_stmts@.len() as int, i as int);
                lemma_fx(e0, *self);
            }
            self.emit_stmt(&then_stmts[i]);
            i = i + 1;
        }
        assert(gen(*self) == stmts_gen(f, g3, then_stmts@, then_stmts@.len() as int));
        let has_else = else_stmts.len() > 0;
        if has_else {
            let mut l = string_of("b ");
            push_str(&mut l, end_label.as_str());
            self.emit(l.as_str());
        }
        let ghost g4 = stmts_gen(f, g3, then_stmts@, then_stmts@.len() as int);
        let ghost g5 = if has_else {
            put(g4, line("b "@ + end_label@))
        } else {
            g4
        };
        assert(gen(*self) == g5);
        self.emit_label(else_label.as_str());
        let ghost g6 = gen(*self);
        assert(g6 == put(g5, label_line(else_label@)));
        let ghost start2 = self.label_counter;
        let mut j: usize = 0;
        while j < else_stmts.len()
            invariant
                j <= else_stmts.len(),
                e0.fixed(*self),
                fx(e0) == f,
                f.wf(),
                stmts_ok(f, else_stmts@, else_stmts@.len() as int),
                gen(*self) == stmts_gen(f, g6, else_stmts@, j as int),
                start2 + 4 * ssizes(else_stmts@, else_stmts@.len() as int) <= e0.label_counter + 4
                    * ssize(s),
                e0.label_counter + 4 * ssize(s) <= usize::MAX,
                self.label_counter <= start2 + 4 * ssizes(else_stmts@, j as int),
                s == (Stmt::If { cond: *cond, then_stmts: *then_stmts, else_stmts: *else_stmts }),
            decreases else_stmts.len() - j,
        {
            proof {
                lemma_ssizes(else_stmts@, else_stmts@.len() as int, j as int);
                lemma_stmts_ok(f, else_stmts@, else_stmts@.len() as int, j as int);
                lemma_fx(e0, *self);
            }
            self.emit_stmt(&else_stmts[j]);
            j = j + 1;
        }
        assert(gen(*self) == stmts_gen(f, g6, else_stmts@, else_stmts@.len() as int));
        if has_else {
            self.emit_label(end_label.as_str());
        }
        let ghost g7 = stmts_gen(f, g6, else_stmts@, else_stmts@.len() as int);
        assert(gen(*self) == if has_else {
            put(g7, label_line(end_label@))
        } else {
            g7
        });
        assert(has_else == (else_stmts@.len() > 0));
        assert(gen(*self) == stmt_gen(f, g0, s));
    }

    /// Lower a helper call made for its effect.
    fn emit_extern_stmt(&mut self, fn_name: &str, args: &Vec<Expr>)
        requires
            old(self).wf(),
            old(self).label_counter + 4 * (1 + sizes(args@, args@.len() as int)) <= usize::MAX,
            old(self).is_rv32() ==> all_fit32(args@, args@.len() as int),
        ensures
            old(self).fixed(*final(self)),
            gen(*final(self)) == extern_stmt_gen(fx(*old(self)), gen(*old(self)), fn_name@, args@),
            final(self).label_counter <= old(self).label_counter + 4 * (1 + sizes(
                args@,
                args@.len() as int,
            )),
    {
        let ghost f = fx(*self);
        let ghost g = gen(*self);
        let mut l = string_of("extern call: ");
        push_str(&mut l, fn_name);
        self.emit_comment(l.as_str());
        self.cold_cache = None;
        let ghost g1 = put(g, comment_line("extern call: "@ + fn_name@));
        assert(gen(*self) == (g1.0, g1.1, None::<u8>, g1.3));
        assert(fx(*self) == f);
        self.emit_extern_call(fn_name, args);
    }
}

} // verus!
