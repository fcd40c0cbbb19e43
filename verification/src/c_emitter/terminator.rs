//! Terminator rendering for the C emitter: tail calls to the next block,
//! dispatch through the table, branches with both paths, exits, and the
//! instruction-limit checks that may suspend execution before a tail call.

use vstd::prelude::*;

use super::{addr_text, ctx, render, rv64, st, tracing, wl, CEmitter};
use crate::config::InstretMode;
use crate::inputs::resolved;
use crate::ir::{BranchHint, Expr, Terminator};
use crate::text::{decimal, hex_padded, push_decimal, push_hex_padded, push_str, string_of};

verus! {

/// A condition with its branch hint.
pub open spec fn hinted(cond: Seq<char>, hint: BranchHint) -> Seq<char> {
    match hint {
        BranchHint::Taken => "likely("@ + cond + ")"@,
        BranchHint::NotTaken => "unlikely("@ + cond + ")"@,
        BranchHint::NoHint => cond,
    }
}

/// The name suffix of a block function: the pc in hex, 16 digits for RV64
/// and 8 for RV32.
pub open spec fn pc_name(c: CEmitter, pc: u64) -> Seq<char> {
    if rv64(c) {
        hex_padded(pc as nat, 16)
    } else {
        hex_padded(pc as nat, 8)
    }
}

/// A tail call of the block function at `pc`.
pub open spec fn tail_call(c: CEmitter, pc: u64) -> Seq<char> {
    "[[clang::musttail]] return B_"@ + pc_name(c, pc) + "("@ + c.sig.args@ + ");"@
}

/// Whether a block starts at `pc`.
pub open spec fn valid_pc(c: CEmitter, pc: u64) -> bool {
    c.inputs.valid_addresses@.contains(pc)
}

/// The block that holds `pc`.
pub open spec fn block_of(c: CEmitter, pc: u64) -> u64 {
    resolved(c.inputs.absorbed_to_merged@, pc)
}

/// Whether execution may suspend at the instruction limit.
pub open spec fn suspends(c: CEmitter) -> bool {
    c.config.instret_mode == InstretMode::Suspend || c.config.instret_mode
        == InstretMode::PerInstruction
}

/// Whether instructions are counted.
pub open spec fn counts(c: CEmitter) -> bool {
    c.config.instret_mode != InstretMode::Off
}

/// The save code of the signature on a line, where there is any.
pub open spec fn with_save(c: CEmitter, x: Seq<char>, indent: int) -> Seq<char> {
    if c.sig.save_to_state@.len() == 0 {
        x
    } else {
        wl(x, indent, c.sig.save_to_state@)
    }
}

/// The check that suspends at the instruction limit, resuming at `pc_text`.
pub open spec fn suspend_check_text(c: CEmitter, x: Seq<char>, pc_text: Seq<char>, indent: int) -> Seq<
    char,
> {
    if !suspends(c) {
        x
    } else {
        let a = wl(x, indent, "if (unlikely("@ + st(c) + "->target_instret <= instret)) {"@);
        let b = wl(a, indent + 1, st(c) + "->pc = "@ + pc_text + ";"@);
        wl(wl(with_save(c, b, indent + 1), indent + 1, "return;"@), indent, "}"@)
    }
}

/// Exit with the code `code` at the current instruction.
pub open spec fn exit_text(c: CEmitter, x: Seq<char>, code: Seq<char>, indent: int) -> Seq<char> {
    let a = wl(x, indent, st(c) + "->has_exited = true;"@);
    let b = wl(a, indent, st(c) + "->exit_code = "@ + code + ";"@);
    let d = wl(b, indent, st(c) + "->pc = "@ + addr_text(c, c.current_pc) + ";"@);
    wl(with_save(c, d, indent), indent, "return;"@)
}

/// Exit with code 1 at `pc`, which starts no block; `save` is the save code.
pub open spec fn bad_target_text(c: CEmitter, x: Seq<char>, pc: u64, save: Seq<char>, indent: int) -> Seq<
    char,
> {
    let a = wl(x, indent, st(c) + "->has_exited = true;"@);
    let b = wl(a, indent, st(c) + "->exit_code = 1;"@);
    let d = wl(b, indent, st(c) + "->pc = "@ + addr_text(c, pc) + ";"@);
    let e = if save.len() == 0 {
        d
    } else {
        wl(d, indent, save)
    };
    wl(e, indent, "return;"@)
}

/// A static jump to `target`.
pub open spec fn jump_static_text(c: CEmitter, x: Seq<char>, target: u64, indent: int) -> Seq<char> {
    let y = suspend_check_text(c, x, addr_text(c, target), indent);
    if valid_pc(c, target) {
        wl(y, indent, tail_call(c, block_of(c, target)))
    } else {
        exit_text(c, y, "1"@, indent)
    }
}

/// A jump through the dispatch table to the rendered target.
pub open spec fn jump_dynamic_text(c: CEmitter, x: Seq<char>, target: Seq<char>, indent: int) -> Seq<char> {
    let y = suspend_check_text(c, x, target, indent);
    wl(
        y,
        indent,
        "[[clang::musttail]] return dispatch_table[dispatch_index("@ + target + ")]("@ + c.sig.args@
            + ");"@,
    )
}

/// Direct calls for the first `n` resolved targets that start a block.
pub open spec fn resolved_cases_text(
    c: CEmitter,
    x: Seq<char>,
    targets: Seq<u64>,
    n: int,
    var: Seq<char>,
    indent: int,
) -> Seq<char>
    decreases n,
{
    if n <= 0 || n > targets.len() {
        x
    } else {
        let y = resolved_cases_text(c, x, targets, n - 1, var, indent);
        let t = targets[n - 1];
        if valid_pc(c, t) {
            let a = wl(y, indent, "if ("@ + var + " == "@ + addr_text(c, t) + ") {"@);
            let b = if c.config.instret_mode == InstretMode::PerInstruction {
                suspend_check_text(c, a, addr_text(c, t), indent + 1)
            } else {
                a
            };
            wl(wl(b, indent + 1, tail_call(c, t)), indent, "}"@)
        } else {
            y
        }
    }
}

/// An indirect jump with resolved targets, `fallback` being the rendered
/// jump address.
pub open spec fn jump_resolved_text(
    c: CEmitter,
    x: Seq<char>,
    targets: Seq<u64>,
    fallback: Seq<char>,
    indent: int,
) -> Seq<char> {
    if targets.len() == 0 {
        jump_dynamic_text(c, x, fallback, indent)
    } else {
        let many = targets.len() > 1;
        let y = if many {
            wl(x, indent, c.reg_type@ + " target = "@ + fallback + ";"@)
        } else {
            x
        };
        let var = if many {
            "target"@
        } else {
            fallback
        };
        jump_dynamic_text(
            c,
            resolved_cases_text(c, y, targets, targets.len() as int, var, indent),
            var,
            indent,
        )
    }
}

/// `trace_branch_taken(...)` or `trace_branch_not_taken(...)` for a branch
/// from the current instruction to `to`.
pub open spec fn trace_branch(c: CEmitter, hook: Seq<char>, to: u64) -> Seq<char> {
    hook + "(&"@ + st(c) + "->tracer, "@ + addr_text(c, c.current_pc) + ", "@ + decimal(
        c.current_op as nat,
    ) + ", "@ + addr_text(c, to) + ");"@
}

/// The taken path of a branch: a block that leaves for `target` when the
/// condition holds.
pub open spec fn branch_taken_text(
    c: CEmitter,
    x: Seq<char>,
    cond: Seq<char>,
    target: u64,
    hint: BranchHint,
) -> Seq<char> {
    let a = wl(x, 1, "if ("@ + hinted(cond, hint) + ") {"@);
    let b = if tracing(c) {
        wl(a, 2, trace_branch(c, "trace_branch_taken"@, target))
    } else {
        a
    };
    let d = if valid_pc(c, target) {
        wl(
            suspend_check_text(c, b, addr_text(c, target), 2),
            2,
            tail_call(c, block_of(c, target)),
        )
    } else {
        bad_target_text(c, b, target, c.sig.save_to_state@, 2)
    };
    wl(d, 1, "}"@)
}

/// The fall-through path of a branch, to `fall`.
pub open spec fn branch_fall_text(c: CEmitter, x: Seq<char>, fall: u64) -> Seq<char> {
    let f = if tracing(c) {
        x + trace_branch(c, "trace_branch_not_taken"@, fall) + "\n"@
    } else {
        x
    };
    if valid_pc(c, fall) {
        wl(suspend_check_text(c, f, addr_text(c, fall), 1), 1, tail_call(c, block_of(c, fall)))
    } else {
        bad_target_text(c, f, fall, c.sig.save_to_state@, 1)
    }
}

/// A branch with both its taken path and its fall-through path.
pub open spec fn branch_text(
    c: CEmitter,
    x: Seq<char>,
    cond: Seq<char>,
    target: u64,
    hint: BranchHint,
    fall: u64,
) -> Seq<char> {
    branch_fall_text(c, branch_taken_text(c, x, cond, target, hint), fall)
}

/// A side exit of a superblock: leave for `target` when the condition holds.
pub open spec fn side_exit_text(
    c: CEmitter,
    x: Seq<char>,
    cond: Seq<char>,
    target: u64,
    hint: BranchHint,
    indent: int,
) -> Seq<char> {
    let a = wl(x, indent, "if ("@ + hinted(cond, hint) + ") {"@);
    let d = if valid_pc(c, target) {
        let b = if counts(c) {
            wl(a, indent + 1, "instret += "@ + decimal(c.instr_idx as nat) + ";"@)
        } else {
            a
        };
        wl(b, indent + 1, tail_call(c, block_of(c, target)))
    } else {
        let p = wl(
            wl(wl(a, indent + 1, st(c) + "->has_exited = true;"@), indent + 1, st(c) + "->exit_code = 1;"@),
            indent + 1,
            st(c) + "->pc = "@ + addr_text(c, target) + ";"@,
        );
        let q = if counts(c) {
            wl(p, indent + 1, st(c) + "->instret = instret + "@ + decimal(c.instr_idx as nat) + ";"@)
        } else {
            p
        };
        let save = c.sig.save_to_state_no_instret@;
        let r = if save.len() == 0 {
            q
        } else {
            wl(q, indent + 1, save)
        };
        wl(r, indent + 1, "return;"@)
    };
    wl(d, indent, "}"@)
}

/// A branch inside an inlined block: only the taken path leaves.
pub open spec fn branch_simple_text(
    c: CEmitter,
    x: Seq<char>,
    cond: Seq<char>,
    target: u64,
    hint: BranchHint,
    indent: int,
) -> Seq<char> {
    let a = wl(x, indent, "if ("@ + hinted(cond, hint) + ") {"@);
    let d = if valid_pc(c, target) {
        wl(a, indent + 1, tail_call(c, block_of(c, target)))
    } else {
        bad_target_text(c, a, target, c.sig.save_to_state@, indent + 1)
    };
    wl(d, indent, "}"@)
}

/// A terminator; `fall_pc` is where execution falls through to.
pub open spec fn terminator_text(c: CEmitter, x: Seq<char>, term: Terminator, fall_pc: u64) -> Seq<char> {
    match term {
        Terminator::Fall { target } => jump_static_text(c, x, target.unwrap_or(fall_pc), 1),
        Terminator::Jump { target } => jump_static_text(c, x, target, 1),
        Terminator::JumpDyn { addr, resolved } => match resolved {
            Some(targets) => jump_resolved_text(c, x, targets@, render(c, addr), 1),
            None => jump_dynamic_text(c, x, render(c, addr), 1),
        },
        Terminator::Branch { cond, target, fall, hint } => branch_text(
            c,
            x,
            render(c, cond),
            target,
            hint,
            fall.unwrap_or(fall_pc),
        ),
        Terminator::Exit { code } => exit_text(c, x, render(c, code), 1),
        Terminator::Trap { message } => exit_text(c, wl(x, 1, "// TRAP: "@ + message@), "1"@, 1),
    }
}

/// A terminator of an inlined block, at `indent`.
pub open spec fn terminator_simple_text(
    c: CEmitter,
    x: Seq<char>,
    term: Terminator,
    fall_pc: u64,
    indent: int,
) -> Seq<char> {
    match term {
        Terminator::Fall { target } => jump_static_text(c, x, target.unwrap_or(fall_pc), indent),
        Terminator::Jump { target } => jump_static_text(c, x, target, indent),
        Terminator::JumpDyn { addr, resolved } => match resolved {
            Some(targets) => jump_resolved_text(c, x, targets@, render(c, addr), indent),
            None => jump_dynamic_text(c, x, render(c, addr), indent),
        },
        Terminator::Branch { cond, target, fall, hint } => branch_simple_text(
            c,
            x,
            render(c, cond),
            target,
            hint,
            indent,
        ),
        Terminator::Exit { code } => exit_text(c, x, render(c, code), indent),
        Terminator::Trap { message } => exit_text(
            c,
            wl(x, indent, "// TRAP: "@ + message@),
            "1"@,
            indent,
        ),
    }
}

/// The check after statements that may have ended the program.
pub open spec fn exit_check_text(c: CEmitter, x: Seq<char>, indent: int) -> Seq<char> {
    let a = wl(x, indent, "if (unlikely("@ + st(c) + "->has_exited)) {"@);
    let b = wl(a, indent + 1, st(c) + "->pc = "@ + addr_text(c, c.current_pc) + ";"@);
    wl(wl(with_save(c, b, indent + 1), indent + 1, "return;"@), indent, "}"@)
}

/// `instret += count;` when instructions are counted.
pub open spec fn instret_update_text(c: CEmitter, x: Seq<char>, count: u64, indent: int) -> Seq<char> {
    if counts(c) {
        wl(x, indent, "instret += "@ + decimal(count as nat) + ";"@)
    } else {
        x
    }
}

impl CEmitter {
    /// The name suffix of the block function at `pc`.
    pub fn fmt_pc(&self, pc: u64) -> (r: String)
        ensures
            r@ == pc_name(ctx(*self), pc),
    {
        let mut s = String::new();
        match self.config.xlen {
            crate::config::Xlen::Rv64 => push_hex_padded(&mut s, pc, 16),
            crate::config::Xlen::Rv32 => push_hex_padded(&mut s, pc, 8),
        }
        s
    }

    /// The tail call of the block function at `pc`.
    fn tail_call_line(&self, pc: u64) -> (r: String)
        ensures
            r@ == tail_call(ctx(*self), pc),
    {
        let mut s = string_of("[[clang::musttail]] return B_");
        let name = self.fmt_pc(pc);
        push_str(&mut s, name.as_str());
        push_str(&mut s, "(");
        push_str(&mut s, self.sig.args.as_str());
        push_str(&mut s, ");");
        s
    }

    /// A condition with its hint.
    fn hinted_cond(cond: &str, hint: BranchHint) -> (r: String)
        ensures
            r@ == hinted(cond@, hint),
    {
        match hint {
            BranchHint::Taken => {
                let mut s = string_of("likely(");
                push_str(&mut s, cond);
                push_str(&mut s, ")");
                s
            },
            BranchHint::NotTaken => {
                let mut s = string_of("unlikely(");
                push_str(&mut s, cond);
                push_str(&mut s, ")");
                s
            },
            BranchHint::NoHint => string_of(cond),
        }
    }

    /// Write the save code on a line of its own, where there is any.
    fn write_save(&mut self, indent: usize)
        ensures
            final(self).out@ == with_save(ctx(*old(self)), old(self).out@, indent as int),
            ctx(*final(self)) == ctx(*old(self)),
    {
        let save = self.sig.save_to_state.clone();
        if !save.as_str().is_empty() {
            self.writeln(indent, save.as_str());
        }
    }

    /// `state->field value` on a line.
    fn write_state_line(&mut self, indent: usize, field: &str, value: &str)
        ensures
            final(self).out@ == wl(old(self).out@, indent as int, st(ctx(*old(self))) + field@ + value@),
            ctx(*final(self)) == ctx(*old(self)),
    {
        let mut l = string_of(self.state_ref());
        push_str(&mut l, field);
        push_str(&mut l, value);
        self.writeln(indent, l.as_str());
    }

    /// The check that suspends at the instruction limit, resuming at the
    /// rendered pc.
    fn render_suspend_check(&mut self, pc_text: &str, indent: usize)
        requires
            indent + 1 <= usize::MAX,
        ensures
            final(self).out@ == suspend_check_text(
                ctx(*old(self)),
                old(self).out@,
                pc_text@,
                indent as int,
            ),
            ctx(*final(self)) == ctx(*old(self)),
    {
        if !self.config.instret_mode.suspends() {
            return;
        }
        let mut l = string_of("if (unlikely(");
        push_str(&mut l, self.state_ref());
        push_str(&mut l, "->target_instret <= instret)) {");
        self.writeln(indent, l.as_str());
        let mut p = String::new();
        push_str(&mut p, pc_text);
        push_str(&mut p, ";");
        self.write_state_line(indent + 1, "->pc = ", p.as_str());
        proof {
            assert(st(ctx(*old(self))) + "->pc = "@ + p@ =~= st(ctx(*old(self))) + "->pc = "@
                + pc_text@ + ";"@);
        }
        self.write_save(indent + 1);
        self.writeln(indent + 1, "return;");
        self.writeln(indent, "}");
    }

    /// Render the check that suspends at the instruction limit before
    /// continuing at `pc`.
    fn render_instret_check_impl(&mut self, pc: u64, indent: usize)
        requires
            indent + 1 <= usize::MAX,
        ensures
            final(self).out@ == suspend_check_text(
                ctx(*old(self)),
                old(self).out@,
                addr_text(ctx(*old(self)), pc),
                indent as int,
            ),
            ctx(*final(self)) == ctx(*old(self)),
    {
        let pc_lit = self.fmt_addr(pc);
        self.render_suspend_check(pc_lit.as_str(), indent);
    }

    /// Render the instruction-limit check for the instruction at `pc`.
    pub fn render_instret_check(&mut self, pc: u64)
        ensures
            final(self).out@ == suspend_check_text(
                ctx(*old(self)),
                old(self).out@,
                addr_text(ctx(*old(self)), pc),
                1,
            ),
            ctx(*final(self)) == ctx(*old(self)),
    {
        self.render_instret_check_impl(pc, 1);
    }

    /// Render an exit with the rendered code at the current instruction.
    fn render_exit_impl(&mut self, code: &str, indent: usize)
        ensures
            final(self).out@ == exit_text(ctx(*old(self)), old(self).out@, code@, indent as int),
            ctx(*final(self)) == ctx(*old(self)),
    {
        self.write_state_line(indent, "->has_exited = true;", "");
        let mut l = string_of(code);
        push_str(&mut l, ";");
        self.write_state_line(indent, "->exit_code = ", l.as_str());
        let mut p = self.fmt_addr(self.current_pc);
        push_str(&mut p, ";");
        self.write_state_line(indent, "->pc = ", p.as_str());
        proof {
            reveal_strlit("");
            let c = ctx(*old(self));
            assert(st(c) + "->has_exited = true;"@ + ""@ =~= st(c) + "->has_exited = true;"@);
            assert(st(c) + "->exit_code = "@ + l@ =~= st(c) + "->exit_code = "@ + code@ + ";"@);
            assert(st(c) + "->pc = "@ + p@ =~= st(c) + "->pc = "@ + addr_text(c, c.current_pc)
                + ";"@);
        }
        self.write_save(indent);
        self.writeln(indent, "return;");
    }

    /// Render an exit with code 1 at `pc`, which starts no block.
    fn render_bad_target(&mut self, pc: u64, save: &str, indent: usize)
        ensures
            final(self).out@ == bad_target_text(
                ctx(*old(self)),
                old(self).out@,
                pc,
                save@,
                indent as int,
            ),
            ctx(*final(self)) == ctx(*old(self)),
    {
        self.write_state_line(indent, "->has_exited = true;", "");
        self.write_state_line(indent, "->exit_code = 1;", "");
        let mut p = self.fmt_addr(pc);
        push_str(&mut p, ";");
        self.write_state_line(indent, "->pc = ", p.as_str());
        proof {
            reveal_strlit("");
            let c = ctx(*old(self));
            assert(st(c) + "->has_exited = true;"@ + ""@ =~= st(c) + "->has_exited = true;"@);
            assert(st(c) + "->exit_code = 1;"@ + ""@ =~= st(c) + "->exit_code = 1;"@);
            assert(st(c) + "->pc = "@ + p@ =~= st(c) + "->pc = "@ + addr_text(c, pc) + ";"@);
        }
        if !save.is_empty() {
            self.writeln(indent, save);
        }
        self.writeln(indent, "return;");
    }

    /// Render a static jump to `target`.
    pub fn render_jump_static(&mut self, target: u64)
        ensures
            final(self).out@ == jump_static_text(ctx(*old(self)), old(self).out@, target, 1),
            ctx(*final(self)) == ctx(*old(self)),
    {
        self.render_jump_static_impl(target, 1);
    }

    /// Render a static jump to `target` at `indent`.
    fn render_jump_static_impl(&mut self, target: u64, indent: usize)
        requires
            indent + 1 <= usize::MAX,
        ensures
            final(self).out@ == jump_static_text(
                ctx(*old(self)),
                old(self).out@,
                target,
                indent as int,
            ),
            ctx(*final(self)) == ctx(*old(self)),
    {
        self.render_instret_check_impl(target, indent);
        if self.is_valid_address(target) {
            let resolved = self.inputs.resolve_address(target);
            let l = self.tail_call_line(resolved);
            self.writeln(indent, l.as_str());
        } else {
            self.render_exit_impl("1", indent);
        }
    }

    /// Render a jump through the dispatch table to the rendered target.
    fn render_jump_dynamic_to(&mut self, target: &str, indent: usize)
        requires
            indent + 1 <= usize::MAX,
        ensures
            final(self).out@ == jump_dynamic_text(
                ctx(*old(self)),
                old(self).out@,
                target@,
                indent as int,
            ),
            ctx(*final(self)) == ctx(*old(self)),
    {
        self.render_suspend_check(target, indent);
        let mut l = string_of("[[clang::musttail]] return dispatch_table[dispatch_index(");
        push_str(&mut l, target);
        push_str(&mut l, ")](");
        push_str(&mut l, self.sig.args.as_str());
        push_str(&mut l, ");");
        self.writeln(indent, l.as_str());
    }

    /// Render a jump through the dispatch table to the jump address, or to
    /// the variable that already holds it.
    fn render_jump_dynamic_impl(&mut self, target_expr: &Expr, pre_eval_var: Option<&str>, indent: usize)
        requires
            old(self).wf(),
            indent + 1 <= usize::MAX,
        ensures
            final(self).out@ == jump_dynamic_text(
                ctx(*old(self)),
                old(self).out@,
                match pre_eval_var {
                    Some(v) => v@,
                    None => render(ctx(*old(self)), *target_expr),
                },
                indent as int,
            ),
            ctx(*final(self)) == ctx(*old(self)),
    {
        let target = match pre_eval_var {
            Some(v) => string_of(v),
            None => self.render_expr(target_expr),
        };
        self.render_jump_dynamic_to(target.as_str(), indent);
    }

    /// Render an indirect jump with the targets the analysis resolved, the
    /// dispatch table for any other.
    fn render_jump_resolved_impl(&mut self, targets: &Vec<u64>, fallback: &Expr, indent: usize)
        requires
            old(self).wf(),
            indent + 2 <= usize::MAX,
        ensures
            final(self).out@ == jump_resolved_text(
                ctx(*old(self)),
                old(self).out@,
                targets@,
                render(ctx(*old(self)), *fallback),
                indent as int,
            ),
            ctx(*final(self)) == ctx(*old(self)),
    {
        if targets.len() == 0 {
            self.render_jump_dynamic_impl(fallback, None, indent);
            return;
        }
        let ghost c0 = ctx(*self);
        let target_var = self.render_expr(fallback);
        let many = targets.len() > 1;
        if many {
            let mut l = string_of(self.reg_type);
            push_str(&mut l, " target = ");
            push_str(&mut l, target_var.as_str());
            push_str(&mut l, ";");
            self.writeln(indent, l.as_str());
        }
        let var = if many {
            string_of("target")
        } else {
            string_of(target_var.as_str())
        };
        let ghost y = self.out@;
        let mut i: usize = 0;
        while i < targets.len()
            invariant
                self.wf(),
                ctx(*self) == c0,
                i <= targets.len(),
                indent + 2 <= usize::MAX,
                self.out@ == resolved_cases_text(c0, y, targets@, i as int, var@, indent as int),
            decreases targets.len() - i,
        {
            let t = targets[i];
            if self.is_valid_address(t) {
                let mut l = string_of("if (");
                push_str(&mut l, var.as_str());
                push_str(&mut l, " == ");
                let a = self.fmt_addr(t);
                push_str(&mut l, a.as_str());
                push_str(&mut l, ") {");
                self.writeln(indent, l.as_str());
                if self.config.instret_mode.per_instruction() {
                    self.render_instret_check_impl(t, indent + 1);
                }
                let call = self.tail_call_line(t);
                self.writeln(indent + 1, call.as_str());
                self.writeln(indent, "}");
            }
            i += 1;
        }
        self.render_jump_dynamic_to(var.as_str(), indent);
    }

    /// One `trace_branch_*` call.
    fn trace_branch_call(&self, hook: &str, to: u64) -> (r: String)
        ensures
            r@ == trace_branch(ctx(*self), hook@, to),
    {
        let mut s = string_of(hook);
        push_str(&mut s, "(&");
        push_str(&mut s, self.state_ref());
        push_str(&mut s, "->tracer, ");
        let pc = self.fmt_addr(self.current_pc);
        push_str(&mut s, pc.as_str());
        push_str(&mut s, ", ");
        push_decimal(&mut s, self.current_op as u64);
        push_str(&mut s, ", ");
        let t = self.fmt_addr(to);
        push_str(&mut s, t.as_str());
        push_str(&mut s, ");");
        s
    }

    /// Render a branch with both its taken and its fall-through path.
    fn render_branch(&mut self, cond: &str, target: u64, hint: BranchHint, fall_pc: u64)
        ensures
            final(self).out@ == branch_text(
                ctx(*old(self)),
                old(self).out@,
                cond@,
                target,
                hint,
                fall_pc,
            ),
            ctx(*final(self)) == ctx(*old(self)),
    {
        self.render_branch_taken(cond, target, hint);
        self.render_branch_fall(fall_pc);
    }

    /// Render the taken path of a branch.
    fn render_branch_taken(&mut self, cond: &str, target: u64, hint: BranchHint)
        ensures
            final(self).out@ == branch_taken_text(
                ctx(*old(self)),
                old(self).out@,
                cond@,
                target,
                hint,
            ),
            ctx(*final(self)) == ctx(*old(self)),
    {
        let cond_str = Self::hinted_cond(cond, hint);
        let save = self.sig.save_to_state.clone();
        let mut l = string_of("if (");
        push_str(&mut l, cond_str.as_str());
        push_str(&mut l, ") {");
        self.writeln(1, l.as_str());
        if self.config.has_tracing() {
            let taken = self.trace_branch_call("trace_branch_taken", target);
            self.writeln(2, taken.as_str());
        }
        if self.is_valid_address(target) {
            self.render_instret_check_impl(target, 2);
            let resolved = self.inputs.resolve_address(target);
            let call = self.tail_call_line(resolved);
            self.writeln(2, call.as_str());
        } else {
            self.render_bad_target(target, save.as_str(), 2);
        }
        self.writeln(1, "}");
    }

    /// Render the fall-through path of a branch.
    fn render_branch_fall(&mut self, fall_pc: u64)
        ensures
            final(self).out@ == branch_fall_text(ctx(*old(self)), old(self).out@, fall_pc),
            ctx(*final(self)) == ctx(*old(self)),
    {
        let save = self.sig.save_to_state.clone();
        if self.config.has_tracing() {
            let mut not_taken = self.trace_branch_call("trace_branch_not_taken", fall_pc);
            push_str(&mut not_taken, "\n");
            let ghost x = self.out@;
            self.write(not_taken.as_str());
            proof {
                let c = ctx(*old(self));
                assert(self.out@ =~= x + trace_branch(c, "trace_branch_not_taken"@, fall_pc)
                    + "\n"@);
            }
        }
        let ghost f = self.out@;
        assert(f == if tracing(ctx(*old(self))) {
            old(self).out@ + trace_branch(ctx(*old(self)), "trace_branch_not_taken"@, fall_pc)
                + "\n"@
        } else {
            old(self).out@
        });
        if self.is_valid_address(fall_pc) {
            self.render_instret_check_impl(fall_pc, 1);
            let resolved = self.inputs.resolve_address(fall_pc);
            let call = self.tail_call_line(resolved);
            self.writeln(1, call.as_str());
        } else {
            self.render_bad_target(fall_pc, save.as_str(), 1);
        }
    }

    /// Render a superblock side exit: leave for `target` when the condition
    /// holds, counting the instructions so far.
    pub fn render_side_exit(&mut self, cond: &str, target: u64, hint: BranchHint, indent: usize)
        requires
            indent + 1 <= usize::MAX,
        ensures
            final(self).out@ == side_exit_text(
                ctx(*old(self)),
                old(self).out@,
                cond@,
                target,
                hint,
                indent as int,
            ),
            ctx(*final(self)) == ctx(*old(self)),
    {
        let cond_str = Self::hinted_cond(cond, hint);
        let mut l = string_of("if (");
        push_str(&mut l, cond_str.as_str());
        push_str(&mut l, ") {");
        self.writeln(indent, l.as_str());
        let counts = self.config.instret_mode.counts();
        if self.is_valid_address(target) {
            if counts {
                let mut u = string_of("instret += ");
                push_decimal(&mut u, self.instr_idx as u64);
                push_str(&mut u, ";");
                self.writeln(indent + 1, u.as_str());
            }
            let resolved = self.inputs.resolve_address(target);
            let call = self.tail_call_line(resolved);
            self.writeln(indent + 1, call.as_str());
        } else {
            self.write_state_line(indent + 1, "->has_exited = true;", "");
            self.write_state_line(indent + 1, "->exit_code = 1;", "");
            let mut p = self.fmt_addr(target);
            push_str(&mut p, ";");
            self.write_state_line(indent + 1, "->pc = ", p.as_str());
            proof {
                reveal_strlit("");
                let c = ctx(*old(self));
                assert(st(c) + "->has_exited = true;"@ + ""@ =~= st(c) + "->has_exited = true;"@);
                assert(st(c) + "->exit_code = 1;"@ + ""@ =~= st(c) + "->exit_code = 1;"@);
                assert(st(c) + "->pc = "@ + p@ =~= st(c) + "->pc = "@ + addr_text(c, target) + ";"@);
            }
            if counts {
                let mut u = String::new();
                push_decimal(&mut u, self.instr_idx as u64);
                push_str(&mut u, ";");
                self.write_state_line(indent + 1, "->instret = instret + ", u.as_str());
                proof {
                    let c = ctx(*old(self));
                    assert(st(c) + "->instret = instret + "@ + u@ =~= st(c)
                        + "->instret = instret + "@ + decimal(c.instr_idx as nat) + ";"@);
                }
            }
            let save = self.sig.save_to_state_no_instret.clone();
            if !save.as_str().is_empty() {
                self.writeln(indent + 1, save.as_str());
            }
            self.writeln(indent + 1, "return;");
        }
        self.writeln(indent, "}");
    }

    /// Render a branch of an inlined block: only the taken path leaves.
    fn render_branch_simple(&mut self, cond: &str, target: u64, hint: BranchHint, indent: usize)
        requires
            indent + 1 <= usize::MAX,
        ensures
            final(self).out@ == branch_simple_text(
                ctx(*old(self)),
                old(self).out@,
                cond@,
                target,
                hint,
                indent as int,
            ),
            ctx(*final(self)) == ctx(*old(self)),
    {
        let cond_str = Self::hinted_cond(cond, hint);
        let save = self.sig.save_to_state.clone();
        let mut l = string_of("if (");
        push_str(&mut l, cond_str.as_str());
        push_str(&mut l, ") {");
        self.writeln(indent, l.as_str());
        if self.is_valid_address(target) {
            let resolved = self.inputs.resolve_address(target);
            let call = self.tail_call_line(resolved);
            self.writeln(indent + 1, call.as_str());
        } else {
            self.render_bad_target(target, save.as_str(), indent + 1);
        }
        self.writeln(indent, "}");
    }

    /// Render a terminator; `fall_pc` is where execution falls through to.
    pub fn render_terminator(&mut self, term: &Terminator, fall_pc: u64)
        requires
            old(self).wf(),
        ensures
            final(self).out@ == terminator_text(ctx(*old(self)), old(self).out@, *term, fall_pc),
            ctx(*final(self)) == ctx(*old(self)),
    {
        match term {
            Terminator::Fall { target } => {
                let t = match target {
                    Some(t) => *t,
                    None => fall_pc,
                };
                self.render_jump_static_impl(t, 1);
            },
            Terminator::Jump { target } => self.render_jump_static_impl(*target, 1),
            Terminator::JumpDyn { addr, resolved } => match resolved {
                Some(targets) => self.render_jump_resolved_impl(targets, addr, 1),
                None => self.render_jump_dynamic_impl(addr, None, 1),
            },
            Terminator::Branch { cond, target, fall, hint } => {
                let cond_str = self.render_expr(cond);
                let f = match fall {
                    Some(f) => *f,
                    None => fall_pc,
                };
                self.render_branch(cond_str.as_str(), *target, *hint, f);
            },
            Terminator::Exit { code } => {
                let code_str = self.render_expr(code);
                self.render_exit_impl(code_str.as_str(), 1);
            },
            Terminator::Trap { message } => {
                let mut l = string_of("// TRAP: ");
                push_str(&mut l, message.as_str());
                self.writeln(1, l.as_str());
                self.render_exit_impl("1", 1);
            },
        }
    }

    /// Render a terminator of an inlined block at `indent`: branches only
    /// leave on their taken path.
    pub fn render_terminator_simple(&mut self, term: &Terminator, fall_pc: u64, indent: usize)
        requires
            old(self).wf(),
            indent + 2 <= usize::MAX,
        ensures
            final(self).out@ == terminator_simple_text(
                ctx(*old(self)),
                old(self).out@,
                *term,
                fall_pc,
                indent as int,
            ),
            ctx(*final(self)) == ctx(*old(self)),
    {
        match term {
            Terminator::Fall { target } => {
                let t = match target {
                    Some(t) => *t,
                    None => fall_pc,
                };
                self.render_jump_static_impl(t, indent);
            },
            Terminator::Jump { target } => self.render_jump_static_impl(*target, indent),
            Terminator::JumpDyn { addr, resolved } => match resolved {
                Some(targets) => self.render_jump_resolved_impl(targets, addr, indent),
                None => self.render_jump_dynamic_impl(addr, None, indent),
            },
            Terminator::Branch { cond, target, fall, hint } => {
                let cond_str = self.render_expr(cond);
                self.render_branch_simple(cond_str.as_str(), *target, *hint, indent);
            },
            Terminator::Exit { code } => {
                let code_str = self.render_expr(code);
                self.render_exit_impl(code_str.as_str(), indent);
            },
            Terminator::Trap { message } => {
                let mut l = string_of("// TRAP: ");
                push_str(&mut l, message.as_str());
                self.writeln(indent, l.as_str());
                self.render_exit_impl("1", indent);
            },
        }
    }

    /// Render the check after statements that may have ended the program.
    pub fn render_exit_check(&mut self, indent: usize)
        requires
            indent + 1 <= usize::MAX,
        ensures
            final(self).out@ == exit_check_text(ctx(*old(self)), old(self).out@, indent as int),
            ctx(*final(self)) == ctx(*old(self)),
    {
        let mut l = string_of("if (unlikely(");
        push_str(&mut l, self.state_ref());
        push_str(&mut l, "->has_exited)) {");
        self.writeln(indent, l.as_str());
        let mut p = self.fmt_addr(self.current_pc);
        push_str(&mut p, ";");
        self.write_state_line(indent + 1, "->pc = ", p.as_str());
        proof {
            let c = ctx(*old(self));
            assert(st(c) + "->pc = "@ + p@ =~= st(c) + "->pc = "@ + addr_text(c, c.current_pc) + ";"@);
        }
        self.write_save(indent + 1);
        self.writeln(indent + 1, "return;");
        self.writeln(indent, "}");
    }

    /// Render `instret += count;` when instructions are counted.
    pub fn render_instret_update(&mut self, count: u64)
        ensures
            final(self).out@ == instret_update_text(ctx(*old(self)), old(self).out@, count, 1),
            ctx(*final(self)) == ctx(*old(self)),
    {
        self.render_instret_update_impl(count, 1);
    }

    /// Render `instret += count;` at `indent` when instructions are counted.
    pub fn render_instret_update_indented(&mut self, count: u64, indent: usize)
        ensures
            final(self).out@ == instret_update_text(
                ctx(*old(self)),
                old(self).out@,
                count,
                indent as int,
            ),
            ctx(*final(self)) == ctx(*old(self)),
    {
        self.render_instret_update_impl(count, indent);
    }

    /// Render `instret += count;` at `indent` when instructions are counted.
    fn render_instret_update_impl(&mut self, count: u64, indent: usize)
        ensures
            final(self).out@ == instret_update_text(
                ctx(*old(self)),
                old(self).out@,
                count,
                indent as int,
            ),
            ctx(*final(self)) == ctx(*old(self)),
    {
        if self.config.instret_mode.counts() {
            let mut l = string_of("instret += ");
            push_decimal(&mut l, count);
            push_str(&mut l, ";");
            self.writeln(indent, l.as_str());
        }
    }

    /// Render the opening of a taken-inline branch: `if (cond) {`.
    pub fn render_branch_open(&mut self, cond: &str, hint: BranchHint)
        ensures
            final(self).out@ == wl(old(self).out@, 1, "if ("@ + hinted(cond@, hint) + ") {"@),
            ctx(*final(self)) == ctx(*old(self)),
    {
        let cond_str = Self::hinted_cond(cond, hint);
        let mut l = string_of("if (");
        push_str(&mut l, cond_str.as_str());
        push_str(&mut l, ") {");
        self.writeln(1, l.as_str());
    }

    /// Render the closing brace of a taken-inline branch.
    pub fn render_branch_close(&mut self)
        ensures
            final(self).out@ == wl(old(self).out@, 1, "}"@),
            ctx(*final(self)) == ctx(*old(self)),
    {
        self.writeln(1, "}");
    }
}

} // verus!
