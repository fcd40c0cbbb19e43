//! Terminators and whole instructions of the ARM64 backend: where control
//! goes after an instruction, the instret suspend checks, and the lowering
//! of one instruction.

use vstd::prelude::*;

use super::branch::{branch_ok, compare_branch_gen, temp_cmp};
use super::dispatch::dispatch_jump_text;
use super::emitter::{instret_increment_text, load_imm_text, reg32, trace_pc_text};
use super::expr::{
    as_addr_gen, bin, comment_line, esize, expr_gen, fits32, fx, gen, label_gen, label_line,
    lemma_bin, lemma_esize_pos, lemma_fx, put, tmp1, Gen,
};
use super::stmt::{lemma_ssizes, lemma_stmts_ok, ssize, ssizes, stmts_gen, stmts_ok};
use super::{line, mem_op, Arm64Emitter};
use crate::config::InstretMode;
use crate::inputs::resolved;
use crate::ir::{Expr, InstrIR, Stmt, Terminator, WriteTarget};
use crate::registers::{INSTRET, STATE_PTR};
use crate::text::{hex, push_hex, push_str, str_eq, string_of};
use std::collections::HashSet;

verus! {

broadcast use vstd::std_specs::hash::group_hash_axioms;

/// Whether a statement (or one nested in it) sets the exit flag.
pub open spec fn writes_exited(s: Stmt) -> bool
    decreases s, 0int,
{
    match s {
        Stmt::Write { target, value } => target is Exited,
        Stmt::If { cond, then_stmts, else_stmts } => any_writes_exited(
            then_stmts@,
            then_stmts@.len() as int,
        ) || any_writes_exited(else_stmts@, else_stmts@.len() as int),
        Stmt::ExternCall { .. } => false,
    }
}

/// Whether one of the first `n` statements sets the exit flag.
pub open spec fn any_writes_exited(ss: Seq<Stmt>, n: int) -> bool
    decreases ss, n,
{
    if n <= 0 || n > ss.len() {
        false
    } else {
        any_writes_exited(ss, n - 1) || writes_exited(ss[n - 1])
    }
}

/// Once one of the first `k` statements sets the exit flag, one of the
/// first `n >= k` does.
proof fn lemma_any_writes_exited_grows(ss: Seq<Stmt>, k: int, n: int)
    requires
        0 <= k <= n <= ss.len(),
        any_writes_exited(ss, k),
    ensures
        any_writes_exited(ss, n),
    decreases n - k,
{
    if k < n {
        lemma_any_writes_exited_grows(ss, k, n - 1);
    }
}

/// Whether a guest address starts a block.
pub open spec fn valid(f: Arm64Emitter, pc: u64) -> bool {
    f.inputs.valid_addresses@.contains(pc)
}

/// The block a guest address lands in.
pub open spec fn res(f: Arm64Emitter, pc: u64) -> u64 {
    resolved(f.inputs.absorbed_to_merged@, pc)
}

/// A jump to the label of a guest pc.
pub open spec fn pc_jump(pc: u64) -> Seq<char> {
    line("b asm_pc_"@ + hex(pc as nat))
}

/// The label a branch to a guest pc goes to: the pc's own, or the trap
/// handler when no block starts there.
pub open spec fn target_label(f: Arm64Emitter, pc: u64) -> Seq<char> {
    if valid(f, pc) {
        "asm_pc_"@ + hex(pc as nat)
    } else {
        "asm_trap"@
    }
}

/// A conditional branch: to the target when `cond` holds, then to the
/// fall-through target unless it is the next instruction emitted.
pub open spec fn branch_term_gen(
    f: Arm64Emitter,
    g: Gen,
    cond: Expr,
    target: u64,
    fall: Option<u64>,
    fall_pc: u64,
) -> Gen {
    let label = target_label(f, res(f, target));
    let c = compare_branch_gen(f, g, cond, label, false);
    let g1 = if c.1 {
        c.0
    } else {
        let a = expr_gen(f, g, cond, tmp1(f));
        put(a.0, line("cbnz "@ + a.1 + ", "@ + label))
    };
    let fpc = match fall {
        Some(x) => res(f, x),
        None => fall_pc,
    };
    if fall is Some && !valid(f, fpc) {
        put(g1, line("b asm_trap"@))
    } else if fpc != fall_pc {
        put(g1, pc_jump(fpc))
    } else {
        g1
    }
}

/// A terminator lowered, with the pc of the next instruction emitted and
/// the pc of this one.
pub open spec fn terminator_gen(f: Arm64Emitter, g: Gen, term: Terminator, fall_pc: u64, current_pc: u64) -> Gen {
    match term {
        Terminator::Fall { target } => {
            let tpc = match target {
                Some(t) => res(f, t),
                None => fall_pc,
            };
            if target is Some && !valid(f, tpc) {
                put(g, line("b asm_trap"@))
            } else if tpc != fall_pc && tpc != current_pc {
                put(g, pc_jump(tpc))
            } else {
                g
            }
        },
        Terminator::Jump { target } => {
            let tpc = res(f, target);
            if !valid(f, tpc) {
                put(g, line("b asm_trap"@))
            } else if tpc != current_pc {
                put(g, pc_jump(tpc))
            } else {
                g
            }
        },
        Terminator::JumpDyn { addr, .. } => {
            let b = as_addr_gen(f, g, addr);
            let g1 = if b.1 != "x0"@ {
                put(b.0, line("mov x0, "@ + b.1))
            } else {
                b.0
            };
            (
                dispatch_jump_text(
                    g1.0 + line("and x0, x0, #-2"@),
                    f.is_rv32(),
                    f.inputs.text_start,
                ),
                g1.1,
                g1.2,
                g1.3,
            )
        },
        Terminator::Branch { cond, target, fall, .. } => branch_term_gen(
            f,
            g,
            cond,
            target,
            fall,
            fall_pc,
        ),
        Terminator::Exit { code } => {
            let a = expr_gen(f, g, code, tmp1(f));
            put(
                a.0,
                line("mov w0, #1"@) + line(
                    mem_op("strb"@, "w0"@, STATE_PTR@, f.layout.offset_has_exited as int),
                ) + line(mem_op("strb"@, reg32(a.1), STATE_PTR@, f.layout.offset_exit_code as int))
                    + line("b asm_exit"@),
            )
        },
        Terminator::Trap { message } => put(
            g,
            comment_line("trap: "@ + message@) + line("b asm_trap"@),
        ),
    }
}

/// The register that carries a next pc to the state for the guest width.
pub open spec fn pc_reg(f: Arm64Emitter) -> Seq<char> {
    if f.is_rv32() {
        "w1"@
    } else {
        "x1"@
    }
}

/// A next pc stored to the state.
pub open spec fn store_pc_text(f: Arm64Emitter, pc: u64) -> Seq<char> {
    load_imm_text(pc_reg(f), pc) + line(mem_op("str"@, pc_reg(f), STATE_PTR@, f.layout.offset_pc as int))
}

/// Leaving to the host once the instret target is reached: the next pc
/// stored (for a branch, the one the condition picks), then `asm_exit`;
/// below the target, execution continues at a fresh label.
pub open spec fn instret_exit_gen(f: Arm64Emitter, g: Gen, term: Terminator, fall_pc: u64, current_pc: u64) -> Gen {
    let (g1, cont) = label_gen(g, "instret_ok"@);
    let g2 = put(
        g1,
        line(mem_op("ldr"@, "x2"@, STATE_PTR@, f.layout.offset_target_instret as int)) + line(
            "cmp "@ + INSTRET@ + ", x2"@,
        ) + line("b.lo "@ + cont),
    );
    let g3 = match term {
        Terminator::Fall { target } => {
            let tpc = match target {
                Some(t) => res(f, t),
                None => fall_pc,
            };
            put(
                g2,
                store_pc_text(
                    f,
                    if tpc == current_pc {
                        fall_pc
                    } else {
                        tpc
                    },
                ) + line("b asm_exit"@),
            )
        },
        Terminator::Jump { target } => put(g2, store_pc_text(f, res(f, target)) + line("b asm_exit"@)),
        Terminator::JumpDyn { addr, .. } => {
            let b = as_addr_gen(f, g2, addr);
            let h = if b.1 != "x0"@ {
                put(b.0, line("mov x0, "@ + b.1))
            } else {
                b.0
            };
            put(
                h,
                line("and x0, x0, #-2"@) + line(
                    mem_op(
                        "str"@,
                        if f.is_rv32() {
                            "w0"@
                        } else {
                            "x0"@
                        },
                        STATE_PTR@,
                        f.layout.offset_pc as int,
                    ),
                ) + line("b asm_exit"@),
            )
        },
        Terminator::Branch { cond, target, fall, .. } => {
            let fpc = match fall {
                Some(x) => res(f, x),
                None => fall_pc,
            };
            let (h1, tl) = label_gen(g2, "instret_target"@);
            let (h2, dl) = label_gen(h1, "instret_done"@);
            let c = compare_branch_gen(f, h2, cond, tl, false);
            let h3 = if c.1 {
                c.0
            } else {
                let a = expr_gen(f, h2, cond, tmp1(f));
                put(a.0, line("cbnz "@ + a.1 + ", "@ + tl))
            };
            put(
                h3,
                store_pc_text(f, fpc) + line("b "@ + dl) + label_line(tl) + store_pc_text(
                    f,
                    res(f, target),
                ) + label_line(dl) + line("b asm_exit"@),
            )
        },
        _ => g2,
    };
    put(g3, label_line(cont))
}

/// After an instruction when every instruction is counted: the counter
/// incremented, then the exit check when the run suspends.
pub open spec fn post_check_gen(f: Arm64Emitter, g: Gen, term: Terminator, fall_pc: u64, current_pc: u64) -> Gen {
    let mode = f.config.instret_mode;
    if mode == InstretMode::Off {
        g
    } else {
        let g1 = put(g, line("add "@ + INSTRET@ + ", "@ + INSTRET@ + ", #1"@));
        if mode == InstretMode::Suspend || mode == InstretMode::PerInstruction {
            instret_exit_gen(f, g1, term, fall_pc, current_pc)
        } else {
            g1
        }
    }
}

/// At the end of a block when the run suspends at block granularity: the
/// exit check.
pub open spec fn suspend_check_gen(f: Arm64Emitter, g: Gen, term: Terminator, fall_pc: u64, current_pc: u64) -> Gen {
    if f.config.instret_mode == InstretMode::Suspend {
        instret_exit_gen(f, g, term, fall_pc, current_pc)
    } else {
        g
    }
}

/// The nodes of a terminator's expression, and one.
pub open spec fn tsize(term: Terminator) -> nat {
    1 + match term {
        Terminator::JumpDyn { addr, .. } => esize(addr),
        Terminator::Branch { cond, .. } => esize(cond),
        Terminator::Exit { code } => esize(code),
        _ => 0,
    }
}

/// The labels an instruction may take are at most four times this.
pub open spec fn isize(instr: InstrIR) -> nat {
    ssizes(instr.statements@, instr.statements@.len() as int) + 2 * tsize(instr.terminator) + 1
}

/// What a terminator needs: immediates of the register width for a 32-bit
/// guest, branch conditions whose immediates can be compared against (also
/// the comparison a branch may take from its last statement), and a text
/// start of the width for the dispatch table.
pub open spec fn term_ok(f: Arm64Emitter, term: Terminator, stmts: Seq<Stmt>) -> bool {
    match term {
        Terminator::JumpDyn { addr, .. } => f.is_rv32() ==> fits32(addr) && f.inputs.text_start
            <= 0xFFFF_FFFF,
        Terminator::Branch { cond, .. } => {
            &&& f.is_rv32() ==> fits32(cond)
            &&& branch_ok(f, cond)
            &&& temp_cmp(stmts, cond) matches Some(t) ==> branch_ok(f, bin(t.2, t.0, t.1))
        },
        Terminator::Exit { code } => f.is_rv32() ==> fits32(code),
        _ => true,
    }
}

/// For a 32-bit guest, the pcs that the instret check may store fit in 32
/// bits.
pub open spec fn exit_pcs_ok(f: Arm64Emitter, term: Terminator, fall_pc: u64, current_pc: u64) -> bool {
    f.is_rv32() ==> match term {
        Terminator::Fall { target } => {
            let tpc = match target {
                Some(t) => res(f, t),
                None => fall_pc,
            };
            (if tpc == current_pc {
                fall_pc
            } else {
                tpc
            }) <= 0xFFFF_FFFF
        },
        Terminator::Jump { target } => res(f, target) <= 0xFFFF_FFFF,
        Terminator::Branch { target, fall, .. } => res(f, target) <= 0xFFFF_FFFF && (match fall {
            Some(x) => res(f, x),
            None => fall_pc,
        }) <= 0xFFFF_FFFF,
        _ => true,
    }
}

/// What an instruction needs to be lowered, beyond room for its labels.
pub open spec fn instr_ok(f: Arm64Emitter, instr: InstrIR, fall_pc: u64) -> bool {
    &&& stmts_ok(f, instr.statements@, instr.statements@.len() as int)
    &&& term_ok(f, instr.terminator, instr.statements@)
    &&& f.is_rv32() ==> instr.pc <= 0xFFFF_FFFF
    &&& (f.config.instret_mode == InstretMode::Suspend || f.config.instret_mode
        == InstretMode::PerInstruction) ==> exit_pcs_ok(f, instr.terminator, fall_pc, instr.pc)
}

/// What lowering an instruction needs of the emitter.
pub open spec fn instr_lowerable(e: Arm64Emitter, instr: InstrIR, fall_pc: u64) -> bool {
    &&& e.wf()
    &&& e.label_counter + 4 * isize(instr) <= usize::MAX
    &&& instr_ok(fx(e), instr, fall_pc)
}

/// The pc after instruction `i` of a stream: the next one's, or its own
/// plus its size for the last.
pub open spec fn fall_of(instrs: Seq<InstrIR>, i: int) -> u64 {
    if i + 1 < instrs.len() {
        instrs[i + 1].pc
    } else {
        (instrs[i].pc + instrs[i].size) as u64
    }
}

/// The sizes of the first `n` instructions, summed.
pub open spec fn isizes(instrs: Seq<InstrIR>, n: int) -> nat
    decreases n,
{
    if n <= 0 || n > instrs.len() {
        0
    } else {
        isizes(instrs, n - 1) + isize(instrs[n - 1])
    }
}

/// What lowering an instruction stream needs beyond room for its labels:
/// each instruction can be lowered, and the last one's end is an address.
pub open spec fn stream_ok(f: Arm64Emitter, instrs: Seq<InstrIR>) -> bool {
    &&& forall|i: int| 0 <= i < instrs.len() ==> instr_ok(f, #[trigger] instrs[i], fall_of(instrs, i))
    &&& instrs.len() > 0 ==> instrs.last().pc + instrs.last().size <= u64::MAX
}

/// The first `n` instructions of a stream lowered, each under its pc's
/// label when it has one.
pub open spec fn stream_gen(f: Arm64Emitter, g: Gen, instrs: Seq<InstrIR>, labels: Set<u64>, n: int) -> Gen
    decreases n,
{
    if n <= 0 || n > instrs.len() {
        g
    } else {
        let g0 = stream_gen(f, g, instrs, labels, n - 1);
        let pc = instrs[n - 1].pc;
        let g1 = if labels.contains(pc) {
            (g0.0 + "asm_pc_"@ + hex(pc as nat) + ":\n"@, g0.1, None, g0.3)
        } else {
            g0
        };
        instr_gen(f, g1, instrs[n - 1], true, fall_of(instrs, n - 1))
    }
}

/// The sum of the first `k` sizes and the next one is at most the sum of
/// the first `n`.
proof fn lemma_isizes(instrs: Seq<InstrIR>, n: int, k: int)
    requires
        0 <= k < n <= instrs.len(),
    ensures
        isizes(instrs, k) + isize(instrs[k]) <= isizes(instrs, n),
        isizes(instrs, k + 1) == isizes(instrs, k) + isize(instrs[k]),
    decreases n,
{
    if k < n - 1 {
        lemma_isizes(instrs, n - 1, k);
    }
}

/// The comparison a block-ending branch takes from its instruction's last
/// statement, when instructions are not counted one by one.
pub open spec fn fused_compare(f: Arm64Emitter, instr: InstrIR, is_last: bool) -> Option<(Expr, Expr, crate::ir::BinaryOp)> {
    if is_last && f.config.instret_mode != InstretMode::PerInstruction {
        match instr.terminator {
            Terminator::Branch { cond, .. } => temp_cmp(instr.statements@, cond),
            _ => None,
        }
    } else {
        None
    }
}

/// An instruction lowered: the trace of its pc, the instret count, its
/// statements (all but a last comparison that the branch takes over), the
/// exit check where a statement may set the exit flag, the instret checks,
/// and its terminator (inside a block only branches and taken jumps).
pub open spec fn instr_gen(f: Arm64Emitter, g: Gen, instr: InstrIR, is_last: bool, fall_pc: u64) -> Gen {
    let pc = instr.pc;
    let mode = f.config.instret_mode;
    let per = mode == InstretMode::PerInstruction;
    let g1 = put(
        g,
        trace_pc_text(f, pc, instr.raw) + if !per && mode != InstretMode::Off {
            instret_increment_text(1)
        } else {
            Seq::empty()
        },
    );
    let len = instr.statements@.len() as int;
    let tc = fused_compare(f, instr, is_last);
    let g2 = stmts_gen(
        f,
        g1,
        instr.statements@,
        if tc is Some {
            len - 1
        } else {
            len
        },
    );
    let g3 = if any_writes_exited(instr.statements@, len) {
        put(
            g2,
            line(mem_op("ldrb"@, "w0"@, STATE_PTR@, f.layout.offset_has_exited as int)) + line(
                "cbnz w0, asm_exit"@,
            ),
        )
    } else {
        g2
    };
    let g4 = if per {
        post_check_gen(f, g3, instr.terminator, fall_pc, pc)
    } else {
        g3
    };
    let g5 = if is_last && !per {
        suspend_check_gen(f, g4, instr.terminator, fall_pc, pc)
    } else {
        g4
    };
    if is_last {
        match tc {
            Some(t) => branch_term_gen(
                f,
                g5,
                bin(t.2, t.0, t.1),
                instr.terminator->target,
                instr.terminator->fall,
                fall_pc,
            ),
            None => terminator_gen(f, g5, instr.terminator, fall_pc, pc),
        }
    } else {
        match instr.terminator {
            Terminator::Branch { .. } => terminator_gen(f, g5, instr.terminator, fall_pc, pc),
            Terminator::Fall { target } => if (match target {
                Some(t) => t,
                None => fall_pc,
            }) != fall_pc {
                terminator_gen(f, g5, instr.terminator, fall_pc, pc)
            } else {
                g5
            },
            _ => g5,
        }
    }
}

/// Whether a statement (or one nested in it) sets the exit flag.
pub fn stmt_writes_to_exited(stmt: &Stmt) -> (r: bool)
    ensures
        r == writes_exited(*stmt),
    decreases *stmt,
{
    match stmt {
        Stmt::Write { target, .. } => match target {
            WriteTarget::Exited => true,
            _ => false,
        },
        Stmt::If { then_stmts, else_stmts, .. } => {
            proof {
                assert(decreases_to!(*stmt => (*stmt)->then_stmts));
                assert(decreases_to!(*stmt => (*stmt)->else_stmts));
            }
            any_stmt_writes_to_exited(then_stmts) || any_stmt_writes_to_exited(else_stmts)
        },
        Stmt::ExternCall { .. } => false,
    }
}

/// Whether one of the statements sets the exit flag.
pub fn any_stmt_writes_to_exited(stmts: &Vec<Stmt>) -> (r: bool)
    ensures
        r == any_writes_exited(stmts@, stmts@.len() as int),
    decreases stmts,
{
    let mut i: usize = 0;
    while i < stmts.len()
        invariant
            i <= stmts.len(),
            !any_writes_exited(stmts@, i as int),
        decreases stmts.len() - i,
    {
        proof {
            assert(decreases_to!(*stmts => stmts@));
            assert(decreases_to!(stmts@ => stmts@[i as int]));
        }
        if stmt_writes_to_exited(&stmts[i]) {
            proof {
                lemma_any_writes_exited_grows(stmts@, i as int + 1, stmts@.len() as int);
            }
            return true;
        }
        i += 1;
    }
    false
}

impl Arm64Emitter {
    /// A jump to the label of a guest pc.
    fn emit_pc_jump(&mut self, pc: u64)
        ensures
            final(self).out@ == old(self).out@ + pc_jump(pc),
            old(self).keeps(*final(self)),
    {
        let mut l = string_of("b asm_pc_");
        push_hex(&mut l, pc);
        self.emit(l.as_str());
    }

    /// The label a branch to a guest pc goes to.
    fn target_label_text(&self, pc: u64) -> (r: String)
        ensures
            r@ == target_label(fx(*self), pc),
    {
        if self.inputs.is_valid_address(pc) {
            let mut l = string_of("asm_pc_");
            push_hex(&mut l, pc);
            l
        } else {
            string_of("asm_trap")
        }
    }

    /// A conditional branch to `target` on `cond`, then to the
    /// fall-through target unless it is the next instruction emitted.
    fn emit_branch_terminator(&mut self, cond: &Expr, target: u64, fall: Option<u64>, fall_pc: u64)
        requires
            old(self).wf(),
            old(self).label_counter + 4 * esize(*cond) <= usize::MAX,
            old(self).is_rv32() ==> fits32(*cond),
            branch_ok(fx(*old(self)), *cond),
        ensures
            old(self).fixed(*final(self)),
            gen(*final(self)) == branch_term_gen(
                fx(*old(self)),
                gen(*old(self)),
                *cond,
                target,
                fall,
                fall_pc,
            ),
            final(self).label_counter <= old(self).label_counter + 4 * esize(*cond),
    {
        proof {
            reveal_strlit("x0");
        }
        let tpc = self.inputs.resolve_address(target);
        let label = self.target_label_text(tpc);
        if !self.try_emit_compare_branch(cond, label.as_str(), false) {
            let t1 = self.temp1();
            let c = self.emit_expr(cond, t1);
            let mut l = string_of("cbnz ");
            push_str(&mut l, c.as_str());
            push_str(&mut l, ", ");
            push_str(&mut l, label.as_str());
            self.emit(l.as_str());
        }
        let fpc = match fall {
            Some(x) => self.inputs.resolve_address(x),
            None => fall_pc,
        };
        if fall.is_some() && !self.inputs.is_valid_address(fpc) {
            self.emit("b asm_trap");
            return ;
        }
        if fpc != fall_pc {
            self.emit_pc_jump(fpc);
        }
    }

    /// Lower a terminator; `fall_pc` is the pc of the next instruction
    /// emitted.
    pub fn emit_terminator(&mut self, term: &Terminator, fall_pc: u64, current_pc: u64)
        requires
            old(self).wf(),
            old(self).label_counter + 4 * tsize(*term) <= usize::MAX,
            term_ok(fx(*old(self)), *term, seq![]),
        ensures
            old(self).fixed(*final(self)),
            gen(*final(self)) == terminator_gen(
                fx(*old(self)),
                gen(*old(self)),
                *term,
                fall_pc,
                current_pc,
            ),
            final(self).label_counter <= old(self).label_counter + 4 * tsize(*term),
    {
        proof {
            reveal_strlit("x0");
        }
        match term {
            Terminator::Fall { target } => {
                let tpc = match target {
                    Some(t) => self.inputs.resolve_address(*t),
                    None => fall_pc,
                };
                if target.is_some() && !self.inputs.is_valid_address(tpc) {
                    self.emit("b asm_trap");
                    return ;
                }
                if tpc != fall_pc && tpc != current_pc {
                    self.emit_pc_jump(tpc);
                }
            },
            Terminator::Jump { target } => {
                let tpc = self.inputs.resolve_address(*target);
                if !self.inputs.is_valid_address(tpc) {
                    self.emit("b asm_trap");
                    return ;
                }
                if tpc != current_pc {
                    self.emit_pc_jump(tpc);
                }
            },
            Terminator::JumpDyn { addr, .. } => {
                let b = self.emit_expr_as_addr(addr);
                if !str_eq(b.as_str(), "x0") {
                    let mut l = string_of("mov x0, ");
                    push_str(&mut l, b.as_str());
                    self.emit(l.as_str());
                }
                self.emit("and x0, x0, #-2");
                self.emit_dispatch_jump();
            },
            Terminator::Branch { cond, target, fall, .. } => {
                self.emit_branch_terminator(cond, *target, *fall, fall_pc);
            },
            Terminator::Exit { code } => {
                let t1 = self.temp1();
                let c = self.emit_expr(code, t1);
                let has_exited = self.layout.offset_has_exited;
                let exit_code = self.layout.offset_exit_code;
                self.emit("mov w0, #1");
                self.emit_mem_op("strb", "w0", STATE_PTR, has_exited);
                let c32 = Self::reg_32(c.as_str());
                self.emit_mem_op("strb", c32.as_str(), STATE_PTR, exit_code);
                self.emit("b asm_exit");
            },
            Terminator::Trap { message } => {
                let mut l = string_of("trap: ");
                push_str(&mut l, message.as_str());
                self.emit_comment(l.as_str());
                self.emit("b asm_trap");
            },
        }
    }

    /// Store a next pc to the state.
    fn emit_store_pc(&mut self, pc: u64)
        requires
            old(self).is_rv32() ==> pc <= 0xFFFF_FFFFu64,
        ensures
            final(self).out@ == old(self).out@ + store_pc_text(fx(*old(self)), pc),
            old(self).keeps(*final(self)),
    {
        self.emit_store_next_pc_imm(pc);
    }

    /// Leave to the host when the instret target is reached, with the next
    /// pc stored.
    #[verifier::rlimit(60)]
    fn emit_instret_exit(&mut self, term: &Terminator, fall_pc: u64, current_pc: u64)
        requires
            old(self).wf(),
            old(self).label_counter + 4 * tsize(*term) <= usize::MAX,
            term_ok(fx(*old(self)), *term, seq![]),
            exit_pcs_ok(fx(*old(self)), *term, fall_pc, current_pc),
        ensures
            old(self).fixed(*final(self)),
            gen(*final(self)) == instret_exit_gen(
                fx(*old(self)),
                gen(*old(self)),
                *term,
                fall_pc,
                current_pc,
            ),
            final(self).label_counter <= old(self).label_counter + 4 * tsize(*term),
    {
        let ghost f = fx(*self);
        let ghost g0 = gen(*self);
        proof {
            reveal_strlit("x0");
        }
        let cont = self.next_label("instret_ok");
        let off = self.layout.offset_target_instret;
        self.emit_mem_op("ldr", "x2", STATE_PTR, off);
        let mut l = string_of("cmp ");
        push_str(&mut l, INSTRET);
        push_str(&mut l, ", x2");
        self.emit(l.as_str());
        let mut l2 = string_of("b.lo ");
        push_str(&mut l2, cont.as_str());
        self.emit(l2.as_str());
        let ghost g1 = label_gen(g0, "instret_ok"@).0;
        let ghost g2 = put(
            g1,
            line(mem_op("ldr"@, "x2"@, STATE_PTR@, f.layout.offset_target_instret as int)) + line(
                "cmp "@ + INSTRET@ + ", x2"@,
            ) + line("b.lo "@ + cont@),
        );
        assert(gen(*self) == g2);
        proof {
            lemma_fx(*old(self), *self);
        }
        match term {
            Terminator::Fall { target } => {
                let tpc = match target {
                    Some(t) => self.inputs.resolve_address(*t),
                    None => fall_pc,
                };
                if tpc == current_pc {
                    self.emit_store_pc(fall_pc);
                } else {
                    self.emit_store_pc(tpc);
                }
                self.emit("b asm_exit");
            },
            Terminator::Jump { target } => {
                let tpc = self.inputs.resolve_address(*target);
                self.emit_store_pc(tpc);
                self.emit("b asm_exit");
            },
            Terminator::JumpDyn { addr, .. } => {
                let b = self.emit_expr_as_addr(addr);
                if !str_eq(b.as_str(), "x0") {
                    let mut m = string_of("mov x0, ");
                    push_str(&mut m, b.as_str());
                    self.emit(m.as_str());
                }
                self.emit("and x0, x0, #-2");
                let pc_off = self.layout.offset_pc;
                if self.rv32() {
                    self.emit_mem_op("str", "w0", STATE_PTR, pc_off);
                } else {
                    self.emit_mem_op("str", "x0", STATE_PTR, pc_off);
                }
                self.emit("b asm_exit");
            },
            Terminator::Branch { cond, target, fall, .. } => {
                self.emit_instret_branch_exit(cond, *target, *fall, fall_pc);
            },
            _ => {},
        }
        self.emit_label(cont.as_str());
    }

    /// The branch case of the instret exit: the fall-through pc stored, or
    /// the target pc when the condition holds.
    fn emit_instret_branch_exit(&mut self, cond: &Expr, target: u64, fall: Option<u64>, fall_pc: u64)
        requires
            old(self).wf(),
            old(self).label_counter + 2 + 4 * esize(*cond) <= usize::MAX,
            old(self).is_rv32() ==> fits32(*cond),
            branch_ok(fx(*old(self)), *cond),
            old(self).is_rv32() ==> resolved(old(self).inputs.absorbed_to_merged@, target)
                <= 0xFFFF_FFFF && (match fall {
                Some(x) => resolved(old(self).inputs.absorbed_to_merged@, x),
                None => fall_pc,
            }) <= 0xFFFF_FFFF,
        ensures
            old(self).fixed(*final(self)),
            gen(*final(self)) == ({
                let f = fx(*old(self));
                let fpc = match fall {
                    Some(x) => res(f, x),
                    None => fall_pc,
                };
                let (h1, tl) = label_gen(gen(*old(self)), "instret_target"@);
                let (h2, dl) = label_gen(h1, "instret_done"@);
                let c = compare_branch_gen(f, h2, *cond, tl, false);
                let h3 = if c.1 {
                    c.0
                } else {
                    let a = expr_gen(f, h2, *cond, tmp1(f));
                    put(a.0, line("cbnz "@ + a.1 + ", "@ + tl))
                };
                put(
                    h3,
                    store_pc_text(f, fpc) + line("b "@ + dl) + label_line(tl) + store_pc_text(
                        f,
                        res(f, target),
                    ) + label_line(dl) + line("b asm_exit"@),
                )
            }),
            final(self).label_counter <= old(self).label_counter + 2 + 4 * esize(*cond),
    {
        proof {
            reveal_strlit("x0");
        }
        let tpc = self.inputs.resolve_address(target);
        let fpc = match fall {
            Some(x) => self.inputs.resolve_address(x),
            None => fall_pc,
        };
        let tl = self.next_label("instret_target");
        let dl = self.next_label("instret_done");
        if !self.try_emit_compare_branch(cond, tl.as_str(), false) {
            let t1 = self.temp1();
            let c = self.emit_expr(cond, t1);
            let mut l = string_of("cbnz ");
            push_str(&mut l, c.as_str());
            push_str(&mut l, ", ");
            push_str(&mut l, tl.as_str());
            self.emit(l.as_str());
        }
        let ghost h3 = self.out@;
        self.emit_store_pc(fpc);
        let mut l = string_of("b ");
        push_str(&mut l, dl.as_str());
        self.emit(l.as_str());
        self.emit_label(tl.as_str());
        self.emit_store_pc(tpc);
        self.emit_label(dl.as_str());
        self.emit("b asm_exit");
        let ghost f = fx(*self);
        assert(self.out@ =~= h3 + (store_pc_text(f, fpc) + line("b "@ + dl@) + label_line(tl@)
            + store_pc_text(f, tpc) + label_line(dl@) + line("b asm_exit"@)));
    }

    /// After an instruction when every instruction is counted: increment
    /// the counter, and when the run suspends, leave once the target is
    /// reached.
    pub fn emit_instret_post_check(&mut self, instr: &InstrIR, fall_pc: u64, current_pc: u64)
        requires
            old(self).wf(),
            old(self).label_counter + 4 * tsize(instr.terminator) <= usize::MAX,
            term_ok(fx(*old(self)), instr.terminator, seq![]),
            old(self).config.instret_mode == InstretMode::Suspend || old(self).config.instret_mode
                == InstretMode::PerInstruction ==> exit_pcs_ok(
                fx(*old(self)),
                instr.terminator,
                fall_pc,
                current_pc,
            ),
        ensures
            old(self).fixed(*final(self)),
            gen(*final(self)) == post_check_gen(
                fx(*old(self)),
                gen(*old(self)),
                instr.terminator,
                fall_pc,
                current_pc,
            ),
            final(self).label_counter <= old(self).label_counter + 4 * tsize(instr.terminator),
    {
        let term = &instr.terminator;
        if !self.config.instret_mode.counts() {
            return ;
        }
        let mut l = string_of("add ");
        push_str(&mut l, INSTRET);
        push_str(&mut l, ", ");
        push_str(&mut l, INSTRET);
        push_str(&mut l, ", #1");
        self.emit(l.as_str());
        if !self.config.instret_mode.suspends() {
            return ;
        }
        self.emit_instret_exit(term, fall_pc, current_pc);
    }

    /// At the end of a block when the run suspends at block granularity:
    /// leave once the instret target is reached.
    pub fn emit_instret_suspend_check(&mut self, instr: &InstrIR, fall_pc: u64, current_pc: u64)
        requires
            old(self).wf(),
            old(self).label_counter + 4 * tsize(instr.terminator) <= usize::MAX,
            term_ok(fx(*old(self)), instr.terminator, seq![]),
            old(self).config.instret_mode == InstretMode::Suspend ==> exit_pcs_ok(
                fx(*old(self)),
                instr.terminator,
                fall_pc,
                current_pc,
            ),
        ensures
            old(self).fixed(*final(self)),
            gen(*final(self)) == suspend_check_gen(
                fx(*old(self)),
                gen(*old(self)),
                instr.terminator,
                fall_pc,
                current_pc,
            ),
            final(self).label_counter <= old(self).label_counter + 4 * tsize(instr.terminator),
    {
        let term = &instr.terminator;
        if !self.config.instret_mode.suspends() || self.config.instret_mode.per_instruction() {
            return ;
        }
        self.emit_instret_exit(term, fall_pc, current_pc);
    }

    /// A block-ending branch on the comparison `left op right` that the
    /// instruction's last statement computed.
    fn emit_fused_branch(
        &mut self,
        op: crate::ir::BinaryOp,
        left: &Expr,
        right: &Expr,
        target: u64,
        fall: Option<u64>,
        fall_pc: u64,
    )
        requires
            old(self).wf(),
            old(self).label_counter + 4 * (1 + esize(*left) + esize(*right)) <= usize::MAX,
            old(self).is_rv32() ==> fits32(*left) && fits32(*right),
            branch_ok(fx(*old(self)), bin(op, *left, *right)),
        ensures
            old(self).fixed(*final(self)),
            gen(*final(self)) == branch_term_gen(
                fx(*old(self)),
                gen(*old(self)),
                bin(op, *left, *right),
                target,
                fall,
                fall_pc,
            ),
            final(self).label_counter <= old(self).label_counter + 4 * (1 + esize(*left) + esize(
                *right,
            )),
    {
        proof {
            reveal_strlit("x0");
            lemma_bin(op, *left, *right);
        }
        let tpc = self.inputs.resolve_address(target);
        let label = self.target_label_text(tpc);
        if !self.try_emit_compare_binary(op, left, right, label.as_str(), false) {
            let t1 = self.temp1();
            let c = self.emit_binary_op(op, left, right, t1);
            let mut l = string_of("cbnz ");
            push_str(&mut l, c.as_str());
            push_str(&mut l, ", ");
            push_str(&mut l, label.as_str());
            self.emit(l.as_str());
        }
        let fpc = match fall {
            Some(x) => self.inputs.resolve_address(x),
            None => fall_pc,
        };
        if fall.is_some() && !self.inputs.is_valid_address(fpc) {
            self.emit("b asm_trap");
            return ;
        }
        if fpc != fall_pc {
            self.emit_pc_jump(fpc);
        }
    }

    /// The comparison a block-ending branch takes over from the last
    /// statement, when instructions are not counted one by one.
    fn fused_comparison<'a>(&self, instr: &'a InstrIR, is_last: bool) -> (r: Option<
        (&'a Expr, &'a Expr, crate::ir::BinaryOp),
    >)
        ensures
            r is None ==> fused_compare(fx(*self), *instr, is_last) is None,
            r matches Some(t) ==> fused_compare(fx(*self), *instr, is_last) == Some(
                (*t.0, *t.1, t.2),
            ),
    {
        if !is_last || self.config.instret_mode.per_instruction() {
            return None;
        }
        match &instr.terminator {
            Terminator::Branch { cond, .. } => Self::cmp_from_temp_branch(&instr.statements, cond),
            _ => None,
        }
    }

    /// Lower one instruction; `fall_pc` is the pc of the next instruction
    /// emitted, and `is_last_in_block` says whether control may leave here.
    #[verifier::rlimit(60)]
    pub fn emit_instruction(&mut self, instr: &InstrIR, is_last_in_block: bool, fall_pc: u64)
        requires
            instr_lowerable(*old(self), *instr, fall_pc),
        ensures
            old(self).fixed(*final(self)),
            gen(*final(self)) == instr_gen(
                fx(*old(self)),
                gen(*old(self)),
                *instr,
                is_last_in_block,
                fall_pc,
            ),
            final(self).label_counter <= old(self).label_counter + 4 * isize(*instr),
    {
        let ghost f = fx(*self);
        let ghost e0 = *self;
        let pc = instr.pc;
        self.emit_trace_pc(pc, instr.raw);
        let per = self.config.instret_mode.per_instruction();
        if !per {
            self.emit_instret_increment(1, pc);
        }
        let ghost g1 = gen(*self);
        assert(g1 == put(
            gen(e0),
            trace_pc_text(f, pc, instr.raw) + if !per && f.config.instret_mode != InstretMode::Off {
                instret_increment_text(1)
            } else {
                Seq::empty()
            },
        ));
        let might_exit = any_stmt_writes_to_exited(&instr.statements);
        let tc = self.fused_comparison(instr, is_last_in_block);
        let len = instr.statements.len();
        let n = if tc.is_some() {
            len - 1
        } else {
            len
        };
        let ghost total = ssizes(instr.statements@, len as int);
        let mut i: usize = 0;
        while i < n
            invariant
                n <= len,
                len == instr.statements@.len(),
                i <= n,
                e0.fixed(*self),
                fx(e0) == f,
                f.wf(),
                stmts_ok(f, instr.statements@, len as int),
                gen(*self) == stmts_gen(f, g1, instr.statements@, i as int),
                g1.1 + 4 * total <= usize::MAX,
                self.label_counter <= g1.1 + 4 * ssizes(instr.statements@, i as int),
                total == ssizes(instr.statements@, len as int),
            decreases n - i,
        {
            proof {
                lemma_ssizes(instr.statements@, len as int, i as int);
                lemma_stmts_ok(f, instr.statements@, len as int, i as int);
                lemma_fx(e0, *self);
            }
            self.emit_stmt(&instr.statements[i]);
            i = i + 1;
        }
        proof {
            if n < len {
                lemma_ssizes(instr.statements@, len as int, n as int);
                lemma_stmts_ok(f, instr.statements@, len as int, n as int);
            } else if len > 0 {
                lemma_ssizes(instr.statements@, len as int, len - 1);
            }
            lemma_fx(e0, *self);
        }
        let ghost g2 = gen(*self);
        assert(g2 == stmts_gen(
            f,
            g1,
            instr.statements@,
            if fused_compare(f, *instr, is_last_in_block) is Some {
                len - 1
            } else {
                len as int
            },
        ));
        if might_exit {
            let off = self.layout.offset_has_exited;
            self.emit_mem_op("ldrb", "w0", STATE_PTR, off);
            self.emit("cbnz w0, asm_exit");
        }
        let ghost g3 = gen(*self);
        assert(g3 == if any_writes_exited(instr.statements@, len as int) {
            put(
                g2,
                line(mem_op("ldrb"@, "w0"@, STATE_PTR@, f.layout.offset_has_exited as int)) + line(
                    "cbnz w0, asm_exit"@,
                ),
            )
        } else {
            g2
        });
        if per {
            self.emit_instret_post_check(instr, fall_pc, pc);
        }
        let ghost g4 = gen(*self);
        assert(g4 == if per {
            post_check_gen(f, g3, instr.terminator, fall_pc, pc)
        } else {
            g3
        });
        if is_last_in_block && self.config.instret_mode.suspends() && !per {
            self.emit_instret_suspend_check(instr, fall_pc, pc);
        }
        let ghost g5 = gen(*self);
        assert(g5 == if is_last_in_block && !per {
            suspend_check_gen(f, g4, instr.terminator, fall_pc, pc)
        } else {
            g4
        });
        if is_last_in_block {
            match tc {
                Some((l, r, op)) => match &instr.terminator {
                    Terminator::Branch { target, fall, .. } => {
                        self.emit_fused_branch(op, l, r, *target, *fall, fall_pc);
                    },
                    _ => {
                        self.emit_terminator(&instr.terminator, fall_pc, pc);
                    },
                },
                None => {
                    self.emit_terminator(&instr.terminator, fall_pc, pc);
                },
            }
        } else {
            match &instr.terminator {
                Terminator::Branch { .. } => {
                    self.emit_terminator(&instr.terminator, fall_pc, pc);
                },
                Terminator::Fall { target } => {
                    let tpc = match target {
                        Some(t) => *t,
                        None => fall_pc,
                    };
                    if tpc != fall_pc {
                        self.emit_terminator(&instr.terminator, fall_pc, pc);
                    }
                },
                _ => {},
            }
        }
        assert(gen(*self) == if is_last_in_block {
            match fused_compare(f, *instr, is_last_in_block) {
                Some(t) => branch_term_gen(
                    f,
                    g5,
                    bin(t.2, t.0, t.1),
                    instr.terminator->target,
                    instr.terminator->fall,
                    fall_pc,
                ),
                None => terminator_gen(f, g5, instr.terminator, fall_pc, pc),
            }
        } else {
            match instr.terminator {
                Terminator::Branch { .. } => terminator_gen(f, g5, instr.terminator, fall_pc, pc),
                Terminator::Fall { target } => if (match target {
                    Some(t) => t,
                    None => fall_pc,
                }) != fall_pc {
                    terminator_gen(f, g5, instr.terminator, fall_pc, pc)
                } else {
                    g5
                },
                _ => g5,
            }
        });
    }

    /// Lower a linear instruction stream, each instruction under the label
    /// of its pc where `label_pcs` holds it.
    pub fn emit_instructions(&mut self, instrs: &Vec<InstrIR>, label_pcs: &HashSet<u64>)
        requires
            old(self).wf(),
            old(self).label_counter + 4 * isizes(instrs@, instrs@.len() as int) <= usize::MAX,
            stream_ok(fx(*old(self)), instrs@),
        ensures
            old(self).fixed(*final(self)),
            gen(*final(self)) == stream_gen(
                fx(*old(self)),
                put(gen(*old(self)), "// Generated code instructions"@ + "\n"@ + "\n"@),
                instrs@,
                label_pcs@,
                instrs@.len() as int,
            ),
    {
        let ghost f = fx(*self);
        let ghost e0 = *self;
        self.emit_raw("// Generated code instructions");
        self.emit_blank();
        let ghost g0 = gen(*self);
        assert(g0 == put(gen(e0), "// Generated code instructions"@ + "\n"@ + "\n"@));
        let len = instrs.len();
        let mut i: usize = 0;
        while i < len
            invariant
                len == instrs@.len(),
                i <= len,
                e0.fixed(*self),
                fx(e0) == f,
                f.wf(),
                stream_ok(f, instrs@),
                gen(*self) == stream_gen(f, g0, instrs@, label_pcs@, i as int),
                g0.1 + 4 * isizes(instrs@, len as int) <= usize::MAX,
                self.label_counter <= g0.1 + 4 * isizes(instrs@, i as int),
            decreases len - i,
        {
            proof {
                lemma_isizes(instrs@, len as int, i as int);
                lemma_fx(e0, *self);
            }
            let instr = &instrs[i];
            let pc = instr.pc;
            if label_pcs.contains(&pc) {
                self.emit_pc_label(pc);
            }
            let fall_pc = if i + 1 < len {
                instrs[i + 1].pc
            } else {
                pc + instr.size as u64
            };
            proof {
                assert(instr_ok(f, instrs@[i as int], fall_of(instrs@, i as int)));
                lemma_fx(e0, *self);
            }
            self.emit_instruction(instr, true, fall_pc);
            i = i + 1;
        }
    }
}

} // verus!
