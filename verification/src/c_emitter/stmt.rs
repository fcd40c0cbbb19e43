//! Statement rendering for the C emitter: writes to registers, memory, CSRs
//! and state fields, conditionals and helper calls, one C line each.

use vstd::prelude::*;

use super::{
    addr_text, ctx, render, render_args, rv64, signed_decimal, signed_text, st, tracing, wl,
    CEmitter,
};
use crate::config::{InstretMode, HTIF_ENABLED};
use crate::htif::TOHOST_ADDR;
use crate::ir::{Expr, Stmt, WriteTarget};
use crate::signature::{reg_read_text, reg_write_text};
use crate::text::{decimal, hex, push_decimal, push_hex, push_str, string_of};

verus! {

/// Store accessor for a width, traced or not.
pub open spec fn write_fn(traced: bool, width: u8) -> Seq<char> {
    if traced {
        if width == 1 {
            "twr_mem_u8"@
        } else if width == 2 {
            "twr_mem_u16"@
        } else if width == 8 {
            "twr_mem_u64"@
        } else {
            "twr_mem_u32"@
        }
    } else {
        if width == 1 {
            "wr_mem_u8"@
        } else if width == 2 {
            "wr_mem_u16"@
        } else if width == 8 {
            "wr_mem_u64"@
        } else {
            "wr_mem_u32"@
        }
    }
}

/// How deeply conditionals nest in a statement.
pub open spec fn stmt_depth(s: Stmt) -> nat
    decreases s, 0int,
{
    match s {
        Stmt::If { cond, then_stmts, else_stmts } => {
            let a = stmts_depth(then_stmts@, then_stmts@.len() as int);
            let b = stmts_depth(else_stmts@, else_stmts@.len() as int);
            1 + if a < b {
                b
            } else {
                a
            }
        },
        _ => 0,
    }
}

/// The deepest nesting among the first `n` statements.
pub open spec fn stmts_depth(ss: Seq<Stmt>, n: int) -> nat
    decreases ss, n,
{
    if n <= 0 || n > ss.len() {
        0
    } else {
        let a = stmts_depth(ss, n - 1);
        let b = stmt_depth(ss[n - 1]);
        if a < b {
            b
        } else {
            a
        }
    }
}

/// The state argument of a CSR accessor: none in fixed address mode.
pub open spec fn state_arg(c: CEmitter) -> Seq<char> {
    if c.sig.fixed_addresses {
        Seq::empty()
    } else {
        st(c) + ", "@
    }
}

/// A register write of the rendered value `v`.
pub open spec fn write_reg_text(c: CEmitter, x: Seq<char>, reg: u8, v: Seq<char>, indent: int) -> Seq<
    char,
> {
    let hot = c.sig.hot_reg_set@;
    let fixed = c.sig.fixed_addresses;
    if reg == 0 {
        x
    } else if tracing(c) {
        if hot.contains(reg) {
            wl(
                x,
                indent,
                reg_read_text(hot, fixed, reg) + " = twr_regval(&"@ + st(c) + "->tracer, "@
                    + addr_text(c, c.current_pc) + ", "@ + decimal(c.current_op as nat) + ", "@
                    + decimal(reg as nat) + ", "@ + v + ");"@,
            )
        } else {
            wl(
                x,
                indent,
                "twr_reg(&"@ + st(c) + "->tracer, "@ + addr_text(c, c.current_pc) + ", "@ + decimal(
                    c.current_op as nat,
                ) + ", "@ + st(c) + ", "@ + decimal(reg as nat) + ", "@ + v + ");"@,
            )
        }
    } else {
        let code = reg_write_text(hot, fixed, reg, v);
        if code.len() == 0 {
            x
        } else {
            wl(x, indent, code)
        }
    }
}

/// A store of `value` to `base + offset` that checks for the `tohost` word.
pub open spec fn tohost_text(
    c: CEmitter,
    x: Seq<char>,
    base: Seq<char>,
    offset: int,
    value: Seq<char>,
    width: u8,
    indent: int,
) -> Seq<char> {
    let s = st(c);
    let pc_lit = addr_text(c, c.current_pc);
    let update = if c.config.instret_mode != InstretMode::Off {
        "instret += "@ + decimal((c.instr_idx + 1) as nat) + ";"@
    } else {
        Seq::empty()
    };
    let save = c.sig.save_to_state@;
    let save_call = if save.len() == 0 {
        Seq::empty()
    } else {
        " "@ + save
    };
    let a = wl(
        x,
        indent,
        "if (unlikely((uint32_t)"@ + base + " + "@ + signed_decimal(offset) + " == 0x"@ + hex(
            TOHOST_ADDR as nat,
        ) + "u)) {"@,
    );
    let b = wl(a, indent + 1, "handle_tohost_write("@ + s + ", "@ + value + ");"@);
    let d = wl(b, indent + 1, "if (unlikely("@ + s + "->has_exited)) {"@);
    let e = wl(d, indent + 2, s + "->pc = "@ + pc_lit + ";"@);
    let f = if update.len() != 0 || save_call.len() != 0 {
        wl(e, indent + 2, update + save_call)
    } else {
        e
    };
    let g = wl(wl(wl(f, indent + 2, "return;"@), indent + 1, "}"@), indent, "} else {"@);
    let w = if width == 8 {
        8u8
    } else {
        4u8
    };
    let store = if tracing(c) {
        write_fn(true, w) + "(&"@ + s + "->tracer, "@ + pc_lit + ", "@ + decimal(c.current_op as nat)
            + ", memory, "@ + base + ", "@ + signed_decimal(offset) + ", "@ + value + ");"@
    } else if c.sig.fixed_addresses {
        write_fn(false, w) + "("@ + base + ", "@ + signed_decimal(offset) + ", "@ + value + ");"@
    } else {
        write_fn(false, w) + "(memory, "@ + base + ", "@ + signed_decimal(offset) + ", "@ + value
            + ");"@
    };
    wl(wl(g, indent + 1, store), indent, "}"@)
}

/// A memory write of `v` to `base + offset`.
pub open spec fn write_mem_text(
    c: CEmitter,
    x: Seq<char>,
    base: Seq<char>,
    offset: int,
    width: u8,
    v: Seq<char>,
    indent: int,
) -> Seq<char> {
    if c.config.flags.has(HTIF_ENABLED) && (width == 4 || width == 8) {
        tohost_text(c, x, base, offset, v, width, indent)
    } else if tracing(c) {
        wl(
            x,
            indent,
            write_fn(true, width) + "(&"@ + st(c) + "->tracer, "@ + addr_text(c, c.current_pc) + ", "@
                + decimal(c.current_op as nat) + ", memory, "@ + base + ", "@ + signed_decimal(offset)
                + ", "@ + v + ");"@,
        )
    } else if c.sig.fixed_addresses {
        wl(x, indent, write_fn(false, width) + "("@ + base + ", "@ + signed_decimal(offset) + ", "@ + v + ");"@)
    } else {
        wl(
            x,
            indent,
            write_fn(false, width) + "(memory, "@ + base + ", "@ + signed_decimal(offset) + ", "@ + v
                + ");"@,
        )
    }
}

/// A write of the rendered value `v` to a target.
pub open spec fn write_text(c: CEmitter, x: Seq<char>, target: WriteTarget, v: Seq<char>, indent: int) -> Seq<
    char,
> {
    match target {
        WriteTarget::Reg(reg) => write_reg_text(c, x, reg, v, indent),
        WriteTarget::Mem { base, offset, width } => write_mem_text(
            c,
            x,
            render(c, base),
            offset as int,
            width,
            v,
            indent,
        ),
        WriteTarget::Csr(csr) => if tracing(c) {
            wl(
                x,
                indent,
                "twr_csr(&"@ + st(c) + "->tracer, "@ + addr_text(c, c.current_pc) + ", "@ + decimal(
                    c.current_op as nat,
                ) + ", "@ + state_arg(c) + "0x"@ + hex(csr as nat) + ", "@ + v + ");"@,
            )
        } else {
            wl(x, indent, "wr_csr("@ + state_arg(c) + "0x"@ + hex(csr as nat) + ", "@ + v + ");"@)
        },
        WriteTarget::Pc => wl(x, indent, st(c) + "->pc = "@ + v + ";"@),
        WriteTarget::Temp(idx) => wl(
            x,
            indent,
            c.reg_type@ + " _t"@ + decimal(idx as nat) + " = "@ + v + ";"@,
        ),
        WriteTarget::ResAddr => wl(x, indent, st(c) + "->reservation_addr = "@ + v + ";"@),
        WriteTarget::ResValid => wl(x, indent, st(c) + "->reservation_valid = "@ + v + ";"@),
        WriteTarget::Exited => wl(x, indent, st(c) + "->has_exited = "@ + v + ";"@),
        WriteTarget::ExitCode => wl(x, indent, st(c) + "->exit_code = "@ + v + ";"@),
    }
}

/// The output `x` followed by a statement rendered at `indent`.
pub open spec fn stmt_text(c: CEmitter, x: Seq<char>, s: Stmt, indent: int) -> Seq<char>
    decreases s, 0int,
{
    match s {
        Stmt::Write { target, value } => write_text(c, x, target, render(c, value), indent),
        Stmt::If { cond, then_stmts, else_stmts } => {
            let a = wl(x, indent, "if ("@ + render(c, cond) + ") {"@);
            let b = stmts_text(c, a, then_stmts@, then_stmts@.len() as int, indent + 1);
            let d = if else_stmts@.len() == 0 {
                b
            } else {
                stmts_text(
                    c,
                    wl(b, indent, "} else {"@),
                    else_stmts@,
                    else_stmts@.len() as int,
                    indent + 1,
                )
            };
            wl(d, indent, "}"@)
        },
        Stmt::ExternCall { fn_name, args } => wl(
            x,
            indent,
            fn_name@ + "("@ + render_args(c, args@, args@.len() as int) + ");"@,
        ),
    }
}

/// The output `x` followed by the first `n` statements rendered at `indent`.
pub open spec fn stmts_text(c: CEmitter, x: Seq<char>, ss: Seq<Stmt>, n: int, indent: int) -> Seq<
    char,
>
    decreases ss, n,
{
    if n <= 0 || n > ss.len() {
        x
    } else {
        stmt_text(c, stmts_text(c, x, ss, n - 1, indent), ss[n - 1], indent)
    }
}

/// Whether a statement writes the exit flag or the exit code.
pub open spec fn writes_exit(s: Stmt) -> bool
    decreases s, 0int,
{
    match s {
        Stmt::Write { target, value } => target is Exited || target is ExitCode,
        Stmt::If { cond, then_stmts, else_stmts } => any_writes_exit(
            then_stmts@,
            then_stmts@.len() as int,
        ) || any_writes_exit(else_stmts@, else_stmts@.len() as int),
        Stmt::ExternCall { .. } => false,
    }
}

/// Whether one of the first `n` statements writes the exit flag or code.
pub open spec fn any_writes_exit(ss: Seq<Stmt>, n: int) -> bool
    decreases ss, n,
{
    if n <= 0 || n > ss.len() {
        false
    } else {
        any_writes_exit(ss, n - 1) || writes_exit(ss[n - 1])
    }
}

/// Once one of the first `k` statements writes the exit, one of the first
/// `n >= k` does.
proof fn lemma_any_writes_exit_grows(ss: Seq<Stmt>, k: int, n: int)
    requires
        0 <= k <= n <= ss.len(),
        any_writes_exit(ss, k),
    ensures
        any_writes_exit(ss, n),
    decreases n - k,
{
    if k < n {
        lemma_any_writes_exit_grows(ss, k, n - 1);
    }
}

/// The nesting of each of the first `n` statements is at most theirs together.
pub proof fn lemma_stmts_depth(ss: Seq<Stmt>, n: int, k: int)
    requires
        0 <= k < n <= ss.len(),
    ensures
        stmt_depth(ss[k]) <= stmts_depth(ss, n),
    decreases n,
{
    if k < n - 1 {
        lemma_stmts_depth(ss, n - 1, k);
    }
}

impl CEmitter {
    /// The rendered arguments of a call, joined with `", "`.
    fn render_call_args(&self, args: &Vec<Expr>) -> (res: String)
        requires
            self.wf(),
        ensures
            res@ == render_args(ctx(*self), args@, args@.len() as int),
    {
        let mut joined = String::new();
        let mut i: usize = 0;
        while i < args.len()
            invariant
                self.wf(),
                i <= args.len(),
                joined@ == render_args(ctx(*self), args@, i as int),
            decreases args.len() - i,
        {
            let a = self.render_expr(&args[i]);
            if i > 0 {
                push_str(&mut joined, ", ");
            }
            push_str(&mut joined, a.as_str());
            i += 1;
        }
        joined
    }

    /// The store accessor for a width.
    fn mem_write_fn(width: u8) -> (r: &'static str)
        ensures
            r@ == write_fn(false, width),
    {
        if width == 1 {
            "wr_mem_u8"
        } else if width == 2 {
            "wr_mem_u16"
        } else if width == 8 {
            "wr_mem_u64"
        } else {
            "wr_mem_u32"
        }
    }

    /// The traced store accessor for a width.
    fn mem_trace_write_fn(width: u8) -> (r: &'static str)
        ensures
            r@ == write_fn(true, width),
    {
        if width == 1 {
            "twr_mem_u8"
        } else if width == 2 {
            "twr_mem_u16"
        } else if width == 8 {
            "twr_mem_u64"
        } else {
            "twr_mem_u32"
        }
    }

    /// Render a statement at `indent`.
    pub fn render_stmt(&mut self, stmt: &Stmt, indent: usize)
        requires
            old(self).wf(),
            old(self).instr_idx < usize::MAX,
            indent + stmt_depth(*stmt) + 2 <= usize::MAX,
        ensures
            final(self).out@ == stmt_text(ctx(*old(self)), old(self).out@, *stmt, indent as int),
            ctx(*final(self)) == ctx(*old(self)),
        decreases *stmt,
    {
        match stmt {
            Stmt::Write { target, value } => self.render_write_stmt(target, value, indent),
            Stmt::If { cond, then_stmts, else_stmts } => {
                let ghost c0 = ctx(*self);
                let ghost x0 = self.out@;
                let cond_str = self.render_expr(cond);
                let mut line = string_of("if (");
                push_str(&mut line, cond_str.as_str());
                push_str(&mut line, ") {");
                self.writeln(indent, line.as_str());
                let ghost a = self.out@;
                let mut i: usize = 0;
                while i < then_stmts.len()
                    invariant
                        self.wf(),
                        self.instr_idx < usize::MAX,
                        ctx(*self) == c0,
                        i <= then_stmts.len(),
                        *stmt == (Stmt::If {
                            cond: *cond,
                            then_stmts: *then_stmts,
                            else_stmts: *else_stmts,
                        }),
                        indent + stmt_depth(*stmt) + 2 <= usize::MAX,
                        self.out@ == stmts_text(c0, a, then_stmts@, i as int, indent + 1),
                    decreases then_stmts.len() - i,
                {
                    proof {
                        assert(decreases_to!(*stmt => (*stmt)->then_stmts));
                        assert(decreases_to!(*then_stmts => then_stmts@));
                        assert(decreases_to!(then_stmts@ => then_stmts@[i as int]));
                        lemma_stmts_depth(then_stmts@, then_stmts@.len() as int, i as int);
                    }
                    self.render_stmt(&then_stmts[i], indent + 1);
                    i += 1;
                }
                if else_stmts.len() > 0 {
                    self.writeln(indent, "} else {");
                    let ghost b = self.out@;
                    let mut j: usize = 0;
                    while j < else_stmts.len()
                        invariant
                            self.wf(),
                            self.instr_idx < usize::MAX,
                            ctx(*self) == c0,
                            j <= else_stmts.len(),
                            *stmt == (Stmt::If {
                                cond: *cond,
                                then_stmts: *then_stmts,
                                else_stmts: *else_stmts,
                            }),
                            indent + stmt_depth(*stmt) + 2 <= usize::MAX,
                            self.out@ == stmts_text(c0, b, else_stmts@, j as int, indent + 1),
                        decreases else_stmts.len() - j,
                    {
                        proof {
                            assert(decreases_to!(*stmt => (*stmt)->else_stmts));
                            assert(decreases_to!(*else_stmts => else_stmts@));
                            assert(decreases_to!(else_stmts@ => else_stmts@[j as int]));
                            lemma_stmts_depth(else_stmts@, else_stmts@.len() as int, j as int);
                        }
                        self.render_stmt(&else_stmts[j], indent + 1);
                        j += 1;
                    }
                }
                self.writeln(indent, "}");
            },
            Stmt::ExternCall { fn_name, args } => {
                let joined = self.render_call_args(args);
                let mut line = string_of(fn_name.as_str());
                push_str(&mut line, "(");
                push_str(&mut line, joined.as_str());
                push_str(&mut line, ");");
                self.writeln(indent, line.as_str());
            },
        }
    }

    /// Render a write of `value` to `target`.
    fn render_write_stmt(&mut self, target: &WriteTarget, value: &Expr, indent: usize)
        requires
            old(self).wf(),
            old(self).instr_idx < usize::MAX,
            indent + 2 <= usize::MAX,
        ensures
            final(self).out@ == write_text(
                ctx(*old(self)),
                old(self).out@,
                *target,
                render(ctx(*old(self)), *value),
                indent as int,
            ),
            ctx(*final(self)) == ctx(*old(self)),
    {
        let v = self.render_expr(value);
        let state = self.state_ref();
        match target {
            WriteTarget::Reg(reg) => self.render_write_reg(*reg, v.as_str(), indent),
            WriteTarget::Mem { base, offset, width } => {
                let base_str = self.render_expr(base);
                self.render_write_mem(base_str.as_str(), *offset, *width, v.as_str(), indent);
            },
            WriteTarget::Csr(csr) => self.render_write_csr(*csr, v.as_str(), indent),
            WriteTarget::Pc => {
                let mut line = string_of(state);
                push_str(&mut line, "->pc = ");
                push_str(&mut line, v.as_str());
                push_str(&mut line, ";");
                self.writeln(indent, line.as_str());
            },
            WriteTarget::Temp(idx) => {
                let mut line = string_of(self.reg_type);
                push_str(&mut line, " _t");
                push_decimal(&mut line, *idx as u64);
                push_str(&mut line, " = ");
                push_str(&mut line, v.as_str());
                push_str(&mut line, ";");
                self.writeln(indent, line.as_str());
            },
            WriteTarget::ResAddr => {
                let mut line = string_of(state);
                push_str(&mut line, "->reservation_addr = ");
                push_str(&mut line, v.as_str());
                push_str(&mut line, ";");
                self.writeln(indent, line.as_str());
            },
            WriteTarget::ResValid => {
                let mut line = string_of(state);
                push_str(&mut line, "->reservation_valid = ");
                push_str(&mut line, v.as_str());
                push_str(&mut line, ";");
                self.writeln(indent, line.as_str());
            },
            WriteTarget::Exited => {
                let mut line = string_of(state);
                push_str(&mut line, "->has_exited = ");
                push_str(&mut line, v.as_str());
                push_str(&mut line, ";");
                self.writeln(indent, line.as_str());
            },
            WriteTarget::ExitCode => {
                let mut line = string_of(state);
                push_str(&mut line, "->exit_code = ");
                push_str(&mut line, v.as_str());
                push_str(&mut line, ";");
                self.writeln(indent, line.as_str());
            },
        }
    }

    /// Render a register write of the rendered value.
    fn render_write_reg(&mut self, reg: u8, value_str: &str, indent: usize)
        requires
            old(self).wf(),
        ensures
            final(self).out@ == write_reg_text(
                ctx(*old(self)),
                old(self).out@,
                reg,
                value_str@,
                indent as int,
            ),
            ctx(*final(self)) == ctx(*old(self)),
    {
        if reg == 0 {
            return;
        }
        let state = self.state_ref();
        if self.config.has_tracing() {
            let pc_lit = self.fmt_addr(self.current_pc);
            let mut line = if self.sig.is_hot_reg(reg) {
                let mut l = self.sig.reg_read(reg);
                push_str(&mut l, " = twr_regval(&");
                push_str(&mut l, state);
                push_str(&mut l, "->tracer, ");
                push_str(&mut l, pc_lit.as_str());
                push_str(&mut l, ", ");
                push_decimal(&mut l, self.current_op as u64);
                push_str(&mut l, ", ");
                push_decimal(&mut l, reg as u64);
                l
            } else {
                let mut l = string_of("twr_reg(&");
                push_str(&mut l, state);
                push_str(&mut l, "->tracer, ");
                push_str(&mut l, pc_lit.as_str());
                push_str(&mut l, ", ");
                push_decimal(&mut l, self.current_op as u64);
                push_str(&mut l, ", ");
                push_str(&mut l, state);
                push_str(&mut l, ", ");
                push_decimal(&mut l, reg as u64);
                l
            };
            push_str(&mut line, ", ");
            push_str(&mut line, value_str);
            push_str(&mut line, ");");
            self.writeln(indent, line.as_str());
        } else {
            let code = self.sig.reg_write(reg, value_str);
            if !code.as_str().is_empty() {
                self.writeln(indent, code.as_str());
            }
        }
    }

    /// Render a memory write of the rendered value.
    fn render_write_mem(&mut self, base: &str, offset: i16, width: u8, value_str: &str, indent: usize)
        requires
            old(self).wf(),
            old(self).instr_idx < usize::MAX,
            indent + 2 <= usize::MAX,
        ensures
            final(self).out@ == write_mem_text(
                ctx(*old(self)),
                old(self).out@,
                base@,
                offset as int,
                width,
                value_str@,
                indent as int,
            ),
            ctx(*final(self)) == ctx(*old(self)),
    {
        if self.config.htif_enabled() && (width == 4 || width == 8) {
            self.render_mem_write_tohost(base, offset, value_str, width, indent);
            return;
        }
        let off = signed_text(offset);
        let mut line = if self.config.has_tracing() {
            let pc_lit = self.fmt_addr(self.current_pc);
            let mut l = string_of(Self::mem_trace_write_fn(width));
            push_str(&mut l, "(&");
            push_str(&mut l, self.state_ref());
            push_str(&mut l, "->tracer, ");
            push_str(&mut l, pc_lit.as_str());
            push_str(&mut l, ", ");
            push_decimal(&mut l, self.current_op as u64);
            push_str(&mut l, ", memory, ");
            l
        } else if self.uses_fixed_addresses() {
            let mut l = string_of(Self::mem_write_fn(width));
            push_str(&mut l, "(");
            l
        } else {
            let mut l = string_of(Self::mem_write_fn(width));
            push_str(&mut l, "(memory, ");
            l
        };
        push_str(&mut line, base);
        push_str(&mut line, ", ");
        push_str(&mut line, off.as_str());
        push_str(&mut line, ", ");
        push_str(&mut line, value_str);
        push_str(&mut line, ");");
        self.writeln(indent, line.as_str());
    }

    /// Render a CSR write of the rendered value.
    fn render_write_csr(&mut self, csr: u16, value_str: &str, indent: usize)
        requires
            old(self).wf(),
        ensures
            final(self).out@ == write_text(
                ctx(*old(self)),
                old(self).out@,
                WriteTarget::Csr(csr),
                value_str@,
                indent as int,
            ),
            ctx(*final(self)) == ctx(*old(self)),
    {
        let state = self.state_ref();
        let state_arg = if self.uses_fixed_addresses() {
            String::new()
        } else {
            let mut a = string_of(state);
            push_str(&mut a, ", ");
            a
        };
        let mut line = if self.config.has_tracing() {
            let pc_lit = self.fmt_addr(self.current_pc);
            let mut l = string_of("twr_csr(&");
            push_str(&mut l, state);
            push_str(&mut l, "->tracer, ");
            push_str(&mut l, pc_lit.as_str());
            push_str(&mut l, ", ");
            push_decimal(&mut l, self.current_op as u64);
            push_str(&mut l, ", ");
            l
        } else {
            string_of("wr_csr(")
        };
        push_str(&mut line, state_arg.as_str());
        push_str(&mut line, "0x");
        push_hex(&mut line, csr as u64);
        push_str(&mut line, ", ");
        push_str(&mut line, value_str);
        push_str(&mut line, ");");
        self.writeln(indent, line.as_str());
    }

    /// Render a memory write that first checks for a store to `tohost`:
    /// such a store is handed to the host, which may end the program.
    fn render_mem_write_tohost(
        &mut self,
        base: &str,
        offset: i16,
        value: &str,
        width: u8,
        indent: usize,
    )
        requires
            old(self).wf(),
            old(self).instr_idx < usize::MAX,
            indent + 2 <= usize::MAX,
        ensures
            final(self).out@ == tohost_text(
                ctx(*old(self)),
                old(self).out@,
                base@,
                offset as int,
                value@,
                width,
                indent as int,
            ),
            ctx(*final(self)) == ctx(*old(self)),
    {
        let pc_lit = self.fmt_addr(self.current_pc);
        let state = self.state_ref();
        let off = signed_text(offset);
        let update = if self.config.instret_mode.counts() {
            let mut u = string_of("instret += ");
            push_decimal(&mut u, (self.instr_idx + 1) as u64);
            push_str(&mut u, ";");
            u
        } else {
            String::new()
        };
        let save_call = if self.sig.save_to_state.as_str().is_empty() {
            String::new()
        } else {
            let mut s = string_of(" ");
            push_str(&mut s, self.sig.save_to_state.as_str());
            s
        };
        let mut l1 = string_of("if (unlikely((uint32_t)");
        push_str(&mut l1, base);
        push_str(&mut l1, " + ");
        push_str(&mut l1, off.as_str());
        push_str(&mut l1, " == 0x");
        push_hex(&mut l1, TOHOST_ADDR);
        push_str(&mut l1, "u)) {");
        self.writeln(indent, l1.as_str());
        let mut l2 = string_of("handle_tohost_write(");
        push_str(&mut l2, state);
        push_str(&mut l2, ", ");
        push_str(&mut l2, value);
        push_str(&mut l2, ");");
        self.writeln(indent + 1, l2.as_str());
        let mut l3 = string_of("if (unlikely(");
        push_str(&mut l3, state);
        push_str(&mut l3, "->has_exited)) {");
        self.writeln(indent + 1, l3.as_str());
        let mut l4 = string_of(state);
        push_str(&mut l4, "->pc = ");
        push_str(&mut l4, pc_lit.as_str());
        push_str(&mut l4, ";");
        self.writeln(indent + 2, l4.as_str());
        if !update.as_str().is_empty() || !save_call.as_str().is_empty() {
            let mut l5 = string_of(update.as_str());
            push_str(&mut l5, save_call.as_str());
            self.writeln(indent + 2, l5.as_str());
        }
        self.writeln(indent + 2, "return;");
        self.writeln(indent + 1, "}");
        self.writeln(indent, "} else {");
        let w: u8 = if width == 8 {
            8
        } else {
            4
        };
        let mut store = if self.config.has_tracing() {
            let mut l = string_of(Self::mem_trace_write_fn(w));
            push_str(&mut l, "(&");
            push_str(&mut l, state);
            push_str(&mut l, "->tracer, ");
            push_str(&mut l, pc_lit.as_str());
            push_str(&mut l, ", ");
            push_decimal(&mut l, self.current_op as u64);
            push_str(&mut l, ", memory, ");
            l
        } else if self.uses_fixed_addresses() {
            let mut l = string_of(Self::mem_write_fn(w));
            push_str(&mut l, "(");
            l
        } else {
            let mut l = string_of(Self::mem_write_fn(w));
            push_str(&mut l, "(memory, ");
            l
        };
        push_str(&mut store, base);
        push_str(&mut store, ", ");
        push_str(&mut store, off.as_str());
        push_str(&mut store, ", ");
        push_str(&mut store, value);
        push_str(&mut store, ");");
        self.writeln(indent + 1, store.as_str());
        self.writeln(indent, "}");
    }

    /// Whether some statement writes the exit flag or the exit code.
    pub fn statements_write_exit(stmts: &Vec<Stmt>) -> (r: bool)
        ensures
            r == any_writes_exit(stmts@, stmts@.len() as int),
        decreases stmts@,
    {
        let mut i: usize = 0;
        while i < stmts.len()
            invariant
                i <= stmts.len(),
                !any_writes_exit(stmts@, i as int),
            decreases stmts.len() - i,
        {
            let hit = match &stmts[i] {
                Stmt::Write { target, .. } => match target {
                    WriteTarget::Exited => true,
                    WriteTarget::ExitCode => true,
                    _ => false,
                },
                Stmt::If { then_stmts, else_stmts, .. } => {
                    proof {
                        assert(decreases_to!(stmts@ => stmts@[i as int]));
                        assert(decreases_to!(stmts@[i as int] => stmts@[i as int]->then_stmts));
                        assert(decreases_to!(stmts@[i as int] => stmts@[i as int]->else_stmts));
                    }
                    Self::statements_write_exit(then_stmts) || Self::statements_write_exit(
                        else_stmts,
                    )
                },
                Stmt::ExternCall { .. } => false,
            };
            assert(hit == writes_exit(stmts@[i as int]));
            if hit {
                proof {
                    lemma_any_writes_exit_grows(stmts@, i as int + 1, stmts@.len() as int);
                }
                return true;
            }
            i += 1;
        }
        false
    }
}

} // verus!
