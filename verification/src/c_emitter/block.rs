//! Block and instruction rendering for the C emitter: the block function's
//! header and footer, and per instruction its comment, `#line` directive,
//! tracing hooks, statements, instruction counting and terminator.

use vstd::prelude::*;

use super::stmt::{any_writes_exit, lemma_stmts_depth, stmts_depth, stmts_text};
use super::terminator::{
    counts, exit_check_text, instret_update_text, pc_name, side_exit_text, suspend_check_text,
    terminator_simple_text, terminator_text,
};
use super::{addr_text, ctx, render, st, tracing, wl, CEmitter};
use crate::config::{InstretMode, EMIT_COMMENTS, EMIT_LINE_INFO};
use crate::debug::loc_valid;
use crate::ir::{BlockIR, InstrIR, Terminator};
use crate::text::{
    ascii_upper, decimal, hex, push_decimal, push_hex, push_str, string_of, to_ascii_upper,
};

verus! {

/// `trace_pc` and `trace_opcode` for an instruction, when tracing.
pub open spec fn trace_pc_for_text(c: CEmitter, x: Seq<char>, pc: u64, op: u16, raw: u32) -> Seq<char> {
    if tracing(c) {
        let a = wl(
            x,
            1,
            "trace_pc(&"@ + st(c) + "->tracer, "@ + addr_text(c, pc) + ", "@ + decimal(op as nat)
                + ");"@,
        );
        wl(
            a,
            1,
            "trace_opcode(&"@ + st(c) + "->tracer, "@ + addr_text(c, pc) + ", "@ + decimal(op as nat)
                + ", 0x"@ + hex(raw as nat) + ");"@,
        )
    } else {
        x
    }
}

/// `trace_block` at the entry of the block at `pc`, when tracing.
pub open spec fn block_trace_text(c: CEmitter, x: Seq<char>, pc: u64) -> Seq<char> {
    if tracing(c) {
        wl(x, 1, "trace_block(&"@ + st(c) + "->tracer, "@ + addr_text(c, pc) + ");"@)
    } else {
        x
    }
}

/// The header of the block function for `[start_pc, end_pc)`, with a
/// comment when comments are on and the block has instructions.
pub open spec fn block_header_text(
    c: CEmitter,
    x: Seq<char>,
    start_pc: u64,
    end_pc: u64,
    count: nat,
) -> Seq<char> {
    let last = if end_pc == 0 {
        0u64
    } else {
        (end_pc - 1) as u64
    };
    let a = if c.config.flags.has(EMIT_COMMENTS) && count > 0 {
        x + ("// Block: "@ + ("0x"@ + hex(start_pc as nat)) + "-"@ + ("0x"@ + hex(last as nat)) + " ("@
            + decimal(count) + " instrs)\n"@)
    } else {
        x
    };
    let attrs = if c.sig.fixed_addresses {
        "__attribute__((preserve_none))"@
    } else {
        "__attribute__((preserve_none, nonnull(1)))"@
    };
    a + (attrs + " void B_"@ + pc_name(c, start_pc) + "("@ + c.sig.params@ + ") {\n"@)
}

/// The emitter positioned at an instruction.
pub open spec fn at_instr(c: CEmitter, ir: InstrIR) -> CEmitter {
    CEmitter { current_pc: ir.pc, current_op: ir.op, current_raw: ir.raw, ..c }
}

/// The emitter after an instruction.
pub open spec fn after_instr(c: CEmitter, ir: InstrIR) -> CEmitter {
    CEmitter { instr_idx: (c.instr_idx + 1) as usize, ..at_instr(c, ir) }
}

/// The comment naming an instruction: its pc, its mnemonic in upper case and,
/// where known, its function.
pub open spec fn instr_comment(ir: InstrIR, mnemonic: Seq<char>) -> Seq<char> {
    let base = "// PC: "@ + ("0x"@ + hex(ir.pc as nat)) + " "@ + ascii_upper(mnemonic);
    match ir.source_loc {
        Some(loc) => if loc.function@.len() > 0 {
            base + "  @ "@ + loc.function@
        } else {
            base
        },
        None => base,
    }
}

/// Where execution continues after an instruction that is not the last.
pub open spec fn next_pc_of(ir: InstrIR, next_instr_pc: Option<u64>) -> u64 {
    match next_instr_pc {
        Some(p) => p,
        None => (ir.pc + ir.size) as u64,
    }
}

/// The head of an instruction: its comment, `#line` directive and `trace_pc`
/// hooks.
pub open spec fn instr_head_text(c: CEmitter, x: Seq<char>, ir: InstrIR, mnemonic: Seq<char>, indent: int) -> Seq<
    char,
> {
    let d = at_instr(c, ir);
    let a = if c.config.flags.has(EMIT_COMMENTS) {
        wl(x, indent, instr_comment(ir, mnemonic))
    } else {
        x
    };
    let b = match ir.source_loc {
        Some(loc) => if c.config.flags.has(EMIT_LINE_INFO) && loc_valid(loc@) {
            wl(a, indent, "#line "@ + decimal(loc.line as nat) + " \""@ + loc.file@ + "\""@)
        } else {
            a
        },
        None => a,
    };
    trace_pc_for_text(d, b, ir.pc, ir.op, ir.raw)
}

/// The body of an instruction, the emitter `d` positioned at it: its
/// statements and the exit check.
pub open spec fn instr_body_text(d: CEmitter, x: Seq<char>, ir: InstrIR, indent: int) -> Seq<char> {
    let s = stmts_text(d, x, ir.statements@, ir.statements@.len() as int, indent);
    if any_writes_exit(ir.statements@, ir.statements@.len() as int) {
        exit_check_text(d, s, indent)
    } else {
        s
    }
}

/// The end of an instruction, the emitter `d` past it: per-instruction
/// counting, then its terminator when it is the last, or its side exit when
/// it is a branch inside a superblock.
pub open spec fn instr_tail_text(
    d: CEmitter,
    x: Seq<char>,
    ir: InstrIR,
    is_last: bool,
    fall_pc: u64,
    next_instr_pc: Option<u64>,
    indent: int,
    simple: bool,
) -> Seq<char> {
    let per = d.config.instret_mode == InstretMode::PerInstruction;
    let f = if per {
        let g = wl(x, indent, "instret += 1;"@);
        if !is_last {
            suspend_check_text(d, g, addr_text(d, next_pc_of(ir, next_instr_pc)), 1)
        } else {
            g
        }
    } else {
        x
    };
    if is_last {
        let h = if counts(d) && !per {
            instret_update_text(d, f, d.instr_idx as u64, indent)
        } else {
            f
        };
        if simple {
            terminator_simple_text(d, h, ir.terminator, fall_pc, indent)
        } else {
            terminator_text(d, h, ir.terminator, fall_pc)
        }
    } else {
        match ir.terminator {
            Terminator::Branch { cond, target, fall, hint } => side_exit_text(
                d,
                f,
                render(d, cond),
                target,
                hint,
                indent,
            ),
            _ => f,
        }
    }
}

/// An instruction rendered at `indent`.
pub open spec fn instr_text(
    c: CEmitter,
    x: Seq<char>,
    ir: InstrIR,
    mnemonic: Seq<char>,
    is_last: bool,
    fall_pc: u64,
    next_instr_pc: Option<u64>,
    indent: int,
    simple: bool,
) -> Seq<char> {
    let a = instr_head_text(c, x, ir, mnemonic, indent);
    let b = instr_body_text(at_instr(c, ir), a, ir, indent);
    instr_tail_text(after_instr(c, ir), b, ir, is_last, fall_pc, next_instr_pc, indent, simple)
}

/// What an instruction needs of the emitter and of itself to be rendered at
/// `indent`: room to count it, to nest its statements, and to compute the
/// address after it where that is where execution continues.
pub open spec fn renderable(
    c: CEmitter,
    ir: InstrIR,
    is_last: bool,
    next_instr_pc: Option<u64>,
    indent: int,
) -> bool {
    &&& c.instr_idx < usize::MAX
    &&& indent + stmts_depth(ir.statements@, ir.statements@.len() as int) + 2 <= usize::MAX
    &&& (c.config.instret_mode == InstretMode::PerInstruction && !is_last && next_instr_pc is None)
        ==> ir.pc + ir.size <= u64::MAX
}

/// The emitter and the output after the first `n` instructions of a block
/// ending at `end_pc`.
pub open spec fn instrs_state(
    c: CEmitter,
    x: Seq<char>,
    instrs: Seq<InstrIR>,
    names: Seq<Seq<char>>,
    n: int,
    end_pc: u64,
) -> (CEmitter, Seq<char>)
    decreases n,
{
    if n <= 0 || n > instrs.len() {
        (c, x)
    } else {
        let prev = instrs_state(c, x, instrs, names, n - 1, end_pc);
        let i = n - 1;
        let is_last = i == instrs.len() - 1;
        let next = if is_last {
            None
        } else {
            Some(instrs[i + 1].pc)
        };
        (
            after_instr(prev.0, instrs[i]),
            instr_text(prev.0, prev.1, instrs[i], names[i], is_last, end_pc, next, 1, false),
        )
    }
}

/// The emitter and the output after a whole block.
pub open spec fn block_state(c: CEmitter, x: Seq<char>, block: BlockIR, names: Seq<Seq<char>>) -> (
    CEmitter,
    Seq<char>,
) {
    let n = block.instructions@.len();
    let h = block_header_text(c, x, block.start_pc, block.end_pc, n);
    let t = block_trace_text(c, h, block.start_pc);
    let r = instrs_state(c, t, block.instructions@, names, n as int, block.end_pc);
    (r.0, r.1 + "}\n\n"@)
}

/// Rendering the first `n` instructions moves the instruction index by `n`
/// and keeps everything else but the current instruction.
proof fn lemma_instrs_state_ctx(
    c: CEmitter,
    x: Seq<char>,
    instrs: Seq<InstrIR>,
    names: Seq<Seq<char>>,
    n: int,
    end_pc: u64,
)
    requires
        0 <= n <= instrs.len(),
        c.instr_idx + n < usize::MAX,
    ensures
        instrs_state(c, x, instrs, names, n, end_pc).0.instr_idx == c.instr_idx + n,
        instrs_state(c, x, instrs, names, n, end_pc).0.config == c.config,
        instrs_state(c, x, instrs, names, n, end_pc).0.sig == c.sig,
        instrs_state(c, x, instrs, names, n, end_pc).0.inputs == c.inputs,
        instrs_state(c, x, instrs, names, n, end_pc).0.reg_type == c.reg_type,
        instrs_state(c, x, instrs, names, n, end_pc).0.signed_type == c.signed_type,
    decreases n,
{
    if n > 0 {
        lemma_instrs_state_ctx(c, x, instrs, names, n - 1, end_pc);
    }
}

impl CEmitter {
    /// Render the header of a block function.
    pub fn render_block_header(&mut self, start_pc: u64, end_pc: u64)
        ensures
            final(self).out@ == block_header_text(ctx(*old(self)), old(self).out@, start_pc, end_pc, 0),
            ctx(*final(self)) == ctx(*old(self)),
    {
        self.render_block_header_with_count(start_pc, end_pc, 0);
    }

    /// Render the header of a block function, with a comment that counts
    /// its instructions.
    pub fn render_block_header_with_count(&mut self, start_pc: u64, end_pc: u64, instr_count: usize)
        ensures
            final(self).out@ == block_header_text(
                ctx(*old(self)),
                old(self).out@,
                start_pc,
                end_pc,
                instr_count as nat,
            ),
            ctx(*final(self)) == ctx(*old(self)),
    {
        if self.config.emit_comments() && instr_count > 0 {
            let mut l = string_of("// Block: ");
            let a = Self::fmt_pc_comment(start_pc);
            push_str(&mut l, a.as_str());
            push_str(&mut l, "-");
            let b = Self::fmt_pc_comment(end_pc.saturating_sub(1));
            push_str(&mut l, b.as_str());
            push_str(&mut l, " (");
            push_decimal(&mut l, instr_count as u64);
            push_str(&mut l, " instrs)\n");
            self.write(l.as_str());
        }
        let attrs = if self.sig.fixed_addresses {
            "__attribute__((preserve_none))"
        } else {
            "__attribute__((preserve_none, nonnull(1)))"
        };
        let mut h = string_of(attrs);
        push_str(&mut h, " void B_");
        let name = self.fmt_pc(start_pc);
        push_str(&mut h, name.as_str());
        push_str(&mut h, "(");
        push_str(&mut h, self.sig.params.as_str());
        push_str(&mut h, ") {\n");
        self.write(h.as_str());
    }

    /// Render the end of a block function.
    pub fn render_block_footer(&mut self)
        ensures
            final(self).out@ == old(self).out@ + "}\n\n"@,
            ctx(*final(self)) == ctx(*old(self)),
    {
        self.write("}\n\n");
    }

    /// Render `trace_block` at the entry of the block at `pc`.
    pub fn render_block_trace(&mut self, pc: u64)
        ensures
            final(self).out@ == block_trace_text(ctx(*old(self)), old(self).out@, pc),
            ctx(*final(self)) == ctx(*old(self)),
    {
        if self.config.has_tracing() {
            let mut l = string_of("trace_block(&");
            push_str(&mut l, self.state_ref());
            push_str(&mut l, "->tracer, ");
            let a = self.fmt_addr(pc);
            push_str(&mut l, a.as_str());
            push_str(&mut l, ");");
            self.writeln(1, l.as_str());
        }
    }

    /// Render `trace_pc` and `trace_opcode` for the current instruction.
    pub fn emit_trace_pc(&mut self)
        ensures
            final(self).out@ == trace_pc_for_text(
                ctx(*old(self)),
                old(self).out@,
                old(self).current_pc,
                old(self).current_op,
                old(self).current_raw,
            ),
            ctx(*final(self)) == ctx(*old(self)),
    {
        let pc = self.current_pc;
        let op = self.current_op;
        let raw = self.current_raw;
        self.emit_trace_pc_for(pc, op, raw);
    }

    /// Render `trace_pc` and `trace_opcode` for the instruction at `pc`.
    pub fn emit_trace_pc_for(&mut self, pc: u64, op: u16, raw: u32)
        ensures
            final(self).out@ == trace_pc_for_text(ctx(*old(self)), old(self).out@, pc, op, raw),
            ctx(*final(self)) == ctx(*old(self)),
    {
        if self.config.has_tracing() {
            let pc_lit = self.fmt_addr(pc);
            let state = self.state_ref();
            let mut a = string_of("trace_pc(&");
            push_str(&mut a, state);
            push_str(&mut a, "->tracer, ");
            push_str(&mut a, pc_lit.as_str());
            push_str(&mut a, ", ");
            push_decimal(&mut a, op as u64);
            push_str(&mut a, ");");
            self.writeln(1, a.as_str());
            let mut b = string_of("trace_opcode(&");
            push_str(&mut b, state);
            push_str(&mut b, "->tracer, ");
            push_str(&mut b, pc_lit.as_str());
            push_str(&mut b, ", ");
            push_decimal(&mut b, op as u64);
            push_str(&mut b, ", 0x");
            push_hex(&mut b, raw as u64);
            push_str(&mut b, ");");
            self.writeln(1, b.as_str());
        }
    }

    /// Render an instruction of a block at the top level; `mnemonic` names
    /// its operation, `fall_pc` is where the block falls through to and
    /// `next_instr_pc` the address of the next instruction of the block.
    pub fn render_instruction(
        &mut self,
        ir: &InstrIR,
        mnemonic: &str,
        is_last: bool,
        fall_pc: u64,
        next_instr_pc: Option<u64>,
    )
        requires
            old(self).wf(),
            renderable(*old(self), *ir, is_last, next_instr_pc, 1),
        ensures
            final(self).out@ == instr_text(
                ctx(*old(self)),
                old(self).out@,
                *ir,
                mnemonic@,
                is_last,
                fall_pc,
                next_instr_pc,
                1,
                false,
            ),
            ctx(*final(self)) == after_instr(ctx(*old(self)), *ir),
    {
        self.render_instruction_impl(ir, mnemonic, is_last, fall_pc, next_instr_pc, 1, false);
    }

    /// Render an instruction of an inlined block at `indent`; its branches
    /// only leave on their taken path.
    pub fn render_instruction_indented(
        &mut self,
        ir: &InstrIR,
        mnemonic: &str,
        is_last: bool,
        fall_pc: u64,
        next_instr_pc: Option<u64>,
        indent: usize,
    )
        requires
            old(self).wf(),
            renderable(*old(self), *ir, is_last, next_instr_pc, indent as int),
        ensures
            final(self).out@ == instr_text(
                ctx(*old(self)),
                old(self).out@,
                *ir,
                mnemonic@,
                is_last,
                fall_pc,
                next_instr_pc,
                indent as int,
                true,
            ),
            ctx(*final(self)) == after_instr(ctx(*old(self)), *ir),
    {
        self.render_instruction_impl(ir, mnemonic, is_last, fall_pc, next_instr_pc, indent, true);
    }

    /// Render an instruction at `indent`, with the simple terminators of
    /// inlined blocks when `use_simple_branch` holds.
    fn render_instruction_impl(
        &mut self,
        ir: &InstrIR,
        mnemonic: &str,
        is_last: bool,
        fall_pc: u64,
        next_instr_pc: Option<u64>,
        indent: usize,
        use_simple_branch: bool,
    )
        requires
            old(self).wf(),
            renderable(*old(self), *ir, is_last, next_instr_pc, indent as int),
        ensures
            final(self).out@ == instr_text(
                ctx(*old(self)),
                old(self).out@,
                *ir,
                mnemonic@,
                is_last,
                fall_pc,
                next_instr_pc,
                indent as int,
                use_simple_branch,
            ),
            ctx(*final(self)) == after_instr(ctx(*old(self)), *ir),
    {
        let ghost c0 = ctx(*self);
        self.render_instruction_head(ir, mnemonic, indent);
        self.render_instruction_body(ir, indent);
        assert(ctx(*self) == at_instr(c0, *ir));
        self.instr_idx = self.instr_idx + 1;
        assert(ctx(*self) == after_instr(c0, *ir));
        self.render_instruction_tail(ir, is_last, fall_pc, next_instr_pc, indent, use_simple_branch);
    }

    /// Position the emitter at an instruction and render its comment,
    /// `#line` directive and `trace_pc` hooks.
    fn render_instruction_head(&mut self, ir: &InstrIR, mnemonic: &str, indent: usize)
        ensures
            final(self).out@ == instr_head_text(
                ctx(*old(self)),
                old(self).out@,
                *ir,
                mnemonic@,
                indent as int,
            ),
            ctx(*final(self)) == at_instr(ctx(*old(self)), *ir),
    {
        self.current_pc = ir.pc;
        self.current_op = ir.op;
        self.current_raw = ir.raw;
        if self.config.emit_comments() {
            let mut l = string_of("// PC: ");
            let pc_hex = Self::fmt_pc_comment(ir.pc);
            push_str(&mut l, pc_hex.as_str());
            push_str(&mut l, " ");
            let upper = to_ascii_upper(mnemonic);
            push_str(&mut l, upper.as_str());
            match &ir.source_loc {
                Some(loc) => {
                    if !loc.function.as_str().is_empty() {
                        push_str(&mut l, "  @ ");
                        push_str(&mut l, loc.function.as_str());
                    }
                },
                None => {},
            }
            self.writeln(indent, l.as_str());
        }
        match &ir.source_loc {
            Some(loc) => {
                if self.config.emit_line_info() && loc.is_valid() {
                    let mut l = string_of("#line ");
                    push_decimal(&mut l, loc.line as u64);
                    push_str(&mut l, " \"");
                    push_str(&mut l, loc.file.as_str());
                    push_str(&mut l, "\"");
                    self.writeln(indent, l.as_str());
                }
            },
            None => {},
        }
        self.emit_trace_pc();
    }

    /// Render an instruction's statements, then the exit check where one of
    /// them may end the program.
    fn render_instruction_body(&mut self, ir: &InstrIR, indent: usize)
        requires
            old(self).wf(),
            old(self).instr_idx < usize::MAX,
            indent + stmts_depth(ir.statements@, ir.statements@.len() as int) + 2 <= usize::MAX,
        ensures
            final(self).out@ == instr_body_text(ctx(*old(self)), old(self).out@, *ir, indent as int),
            ctx(*final(self)) == ctx(*old(self)),
    {
        let ghost c0 = ctx(*self);
        let ghost x0 = self.out@;
        let mut i: usize = 0;
        while i < ir.statements.len()
            invariant
                self.wf(),
                self.instr_idx < usize::MAX,
                ctx(*self) == c0,
                i <= ir.statements.len(),
                indent + stmts_depth(ir.statements@, ir.statements@.len() as int) + 2 <= usize::MAX,
                self.out@ == stmts_text(c0, x0, ir.statements@, i as int, indent as int),
            decreases ir.statements.len() - i,
        {
            proof {
                lemma_stmts_depth(ir.statements@, ir.statements@.len() as int, i as int);
            }
            self.render_stmt(&ir.statements[i], indent);
            i += 1;
        }
        if Self::statements_write_exit(&ir.statements) {
            self.render_exit_check(indent);
        }
    }

    /// Count the instruction where counting is per instruction, then render
    /// its terminator or its side exit.
    fn render_instruction_tail(
        &mut self,
        ir: &InstrIR,
        is_last: bool,
        fall_pc: u64,
        next_instr_pc: Option<u64>,
        indent: usize,
        use_simple_branch: bool,
    )
        requires
            old(self).wf(),
            indent + 2 <= usize::MAX,
            (old(self).config.instret_mode == InstretMode::PerInstruction && !is_last
                && next_instr_pc is None) ==> ir.pc + ir.size <= u64::MAX,
        ensures
            final(self).out@ == instr_tail_text(
                ctx(*old(self)),
                old(self).out@,
                *ir,
                is_last,
                fall_pc,
                next_instr_pc,
                indent as int,
                use_simple_branch,
            ),
            ctx(*final(self)) == ctx(*old(self)),
    {
        let per = self.config.instret_mode.per_instruction();
        if per {
            self.writeln(indent, "instret += 1;");
            if !is_last {
                let next_pc = match next_instr_pc {
                    Some(p) => p,
                    None => ir.pc + ir.size as u64,
                };
                self.render_instret_check(next_pc);
            }
        }
        if is_last {
            if self.config.instret_mode.counts() && !per {
                let n = self.instr_idx as u64;
                self.render_instret_update_indented(n, indent);
            }
            if use_simple_branch {
                self.render_terminator_simple(&ir.terminator, fall_pc, indent);
            } else {
                self.render_terminator(&ir.terminator, fall_pc);
            }
        } else {
            match &ir.terminator {
                Terminator::Branch { cond, target, hint, .. } => {
                    let cond_str = self.render_expr(cond);
                    self.render_side_exit(cond_str.as_str(), *target, *hint, indent);
                },
                _ => {},
            }
        }
    }

    /// Render a whole block: its header, `trace_block`, each instruction
    /// (the last one with its terminator) and the closing brace;
    /// `mnemonics[i]` names the operation of the `i`-th instruction.
    pub fn render_block(&mut self, block: &BlockIR, mnemonics: &Vec<String>)
        requires
            old(self).wf(),
            mnemonics@.len() == block.instructions@.len(),
            old(self).instr_idx + block.instructions@.len() < usize::MAX,
            forall|i: int|
                0 <= i < block.instructions@.len() ==> 1 + stmts_depth(
                    #[trigger] block.instructions@[i].statements@,
                    block.instructions@[i].statements@.len() as int,
                ) + 2 <= usize::MAX,
        ensures
            final(self).out@ == block_state(
                ctx(*old(self)),
                old(self).out@,
                *block,
                mnemonics@.map_values(|m: String| m@),
            ).1,
            ctx(*final(self)) == block_state(
                ctx(*old(self)),
                old(self).out@,
                *block,
                mnemonics@.map_values(|m: String| m@),
            ).0,
    {
        let ghost c0 = ctx(*self);
        let ghost names = mnemonics@.map_values(|m: String| m@);
        let n = block.instructions.len();
        self.render_block_header_with_count(block.start_pc, block.end_pc, n);
        self.render_block_trace(block.start_pc);
        let ghost t = self.out@;
        let mut i: usize = 0;
        while i < n
            invariant
                n == block.instructions@.len(),
                mnemonics@.len() == n,
                names == mnemonics@.map_values(|m: String| m@),
                i <= n,
                c0.instr_idx + n < usize::MAX,
                c0.wf(),
                self.wf(),
                forall|k: int|
                    0 <= k < n ==> 1 + stmts_depth(
                        #[trigger] block.instructions@[k].statements@,
                        block.instructions@[k].statements@.len() as int,
                    ) + 2 <= usize::MAX,
                ctx(*self) == instrs_state(c0, t, block.instructions@, names, i as int, block.end_pc).0,
                self.out@ == instrs_state(c0, t, block.instructions@, names, i as int, block.end_pc).1,
            decreases n - i,
        {
            proof {
                lemma_instrs_state_ctx(c0, t, block.instructions@, names, i as int, block.end_pc);
            }
            let is_last = i == n - 1;
            let next = if !is_last {
                Some(block.instructions[i + 1].pc)
            } else {
                None
            };
            self.render_instruction(&block.instructions[i], mnemonics[i].as_str(), is_last, block.end_pc, next);
            i += 1;
        }
        self.render_block_footer();
    }
}

} // verus!
