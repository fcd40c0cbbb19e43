//! Function signature generation for block functions.
//!
//! Block functions take the state pointer and memory base, an optional
//! instret counter, the tracer's passed variables and the hot registers as
//! direct parameters.

use std::collections::HashSet;
use vstd::prelude::*;

use crate::config::{EmitConfig, InstretMode, Xlen};
use crate::text::{push_char, push_decimal, push_str, decimal, str_chars};

verus! {

broadcast use vstd::std_specs::hash::group_hash_axioms;

/// ABI names of the RISC-V integer registers.
pub const REG_ABI_NAMES: [&'static str; 32] = [
    "zero", "ra", "sp", "gp", "tp", "t0", "t1", "t2", "s0", "s1", "a0", "a1", "a2", "a3", "a4",
    "a5", "a6", "a7", "s2", "s3", "s4", "s5", "s6", "s7", "s8", "s9", "s10", "s11", "t3", "t4",
    "t5", "t6",
];

/// ABI name of a register.
pub fn abi_name(reg: u8) -> (r: &'static str)
    requires
        reg < 32,
    ensures
        r == REG_ABI_NAMES@[reg as int],
{
    REG_ABI_NAMES[reg as usize]
}

/// C type of a register of the given width.
pub fn reg_type(xlen: Xlen) -> (r: &'static str)
    ensures
        r@ == (if xlen == Xlen::Rv64 { "uint64_t"@ } else { "uint32_t"@ }),
{
    match xlen {
        Xlen::Rv64 => "uint64_t",
        Xlen::Rv32 => "uint32_t",
    }
}

/// Fixed address constant for state.
pub const STATE_FIXED_REF: &'static str = "((RvState*)RV_STATE_ADDR)";

/// Fixed address constant for memory.
pub const MEMORY_FIXED_REF: &'static str = "((uint8_t*)RV_MEMORY_ADDR)";

/// State reference expression: the fixed-address constant in fixed address
/// mode, `state` otherwise.
pub fn state_ref(fixed_addresses: bool) -> (r: &'static str)
    ensures
        r@ == (if fixed_addresses { STATE_FIXED_REF@ } else { "state"@ }),
{
    if fixed_addresses {
        STATE_FIXED_REF
    } else {
        "state"
    }
}

/// `s` with every leading `", "` removed.
pub open spec fn trim_sep(s: Seq<char>) -> Seq<char>
    decreases s.len(),
{
    if s.len() >= 2 && s[0] == ',' && s[1] == ' ' {
        trim_sep(s.subrange(2, s.len() as int))
    } else {
        s
    }
}

/// The five texts of a signature: parameters, arguments, arguments read from
/// the state, save code, and save code without instret.
pub type SigText = (Seq<char>, Seq<char>, Seq<char>, Seq<char>, Seq<char>);

/// State and memory parameters, unless fixed addresses are used.
pub open spec fn sig_base(fixed: bool) -> SigText {
    if fixed {
        (seq![], seq![], seq![], seq![], seq![])
    } else {
        (
            "RvState* restrict state, uint8_t* restrict memory"@,
            "state, memory"@,
            "state, state->memory"@,
            seq![],
            seq![],
        )
    }
}

/// The three argument lists extended by one item each (a separator first
/// unless the parameter list is still empty).
pub open spec fn sig_add(t: SigText, p: Seq<char>, a: Seq<char>, f: Seq<char>) -> SigText {
    if t.0.len() == 0 {
        (t.0 + p, t.1 + a, t.2 + f, t.3, t.4)
    } else {
        (t.0 + ", "@ + p, t.1 + ", "@ + a, t.2 + ", "@ + f, t.3, t.4)
    }
}

/// The instret counter, when instructions are counted.
pub open spec fn sig_instret(t: SigText, counts: bool, state: Seq<char>) -> SigText {
    if counts {
        let u = sig_add(t, "uint64_t instret"@, "instret"@, state + "->instret"@);
        (u.0, u.1, u.2, u.3 + state + "->instret = instret;"@, u.4)
    } else {
        t
    }
}

/// The tracer's passed variables.
pub open spec fn sig_tracer(
    t: SigText,
    params: Seq<char>,
    args: Seq<char>,
    from_state: Seq<char>,
    save: Seq<char>,
) -> SigText {
    let u = if params.len() == 0 {
        t
    } else if t.0.len() == 0 {
        (t.0 + trim_sep(params), t.1 + trim_sep(args), t.2 + trim_sep(from_state), t.3, t.4)
    } else {
        (t.0 + params, t.1 + args, t.2 + from_state, t.3, t.4)
    };
    (u.0, u.1, u.2, u.3 + save, u.4 + save)
}

/// One hot register as a parameter, an argument, a read from the state and a
/// store back.
pub open spec fn sig_reg(t: SigText, rtype: Seq<char>, state: Seq<char>, reg: u8) -> SigText {
    let name = REG_ABI_NAMES@[reg as int]@;
    let regs = state + "->regs["@ + decimal(reg as nat) + "]"@;
    let u = sig_add(t, rtype + " "@ + name, name, regs);
    let save = " "@ + regs + " = "@ + name + ";"@;
    (u.0, u.1, u.2, u.3 + save, u.4 + save)
}

/// All hot registers, in order.
pub open spec fn sig_hot(t: SigText, rtype: Seq<char>, state: Seq<char>, hot: Seq<u8>) -> SigText
    decreases hot.len(),
{
    if hot.len() == 0 {
        t
    } else {
        sig_reg(sig_hot(t, rtype, state, hot.drop_last()), rtype, state, hot.last())
    }
}

/// The signature texts of a configuration.
pub open spec fn signature_text(config: EmitConfig) -> SigText {
    let fixed = config.fixed_addresses.is_some();
    let state = if fixed { STATE_FIXED_REF@ } else { "state"@ };
    let rtype = if config.xlen == Xlen::Rv64 { "uint64_t"@ } else { "uint32_t"@ };
    let tc = config.tracer_config;
    sig_hot(
        sig_tracer(
            sig_instret(sig_base(fixed), config.instret_mode != InstretMode::Off, state),
            tc.passed_var_params@,
            tc.passed_var_args@,
            tc.passed_var_args_from_state@,
            tc.passed_var_save_to_state@,
        ),
        rtype,
        state,
        config.hot_regs@,
    )
}

/// Function signature for block functions: parameter declarations, argument
/// lists and save code for the generated C code.
#[derive(Debug)]
pub struct FnSignature {
    /// C function parameter declaration.
    pub params: String,
    /// Argument list for calling block functions.
    pub args: String,
    /// Arguments extracted from the state struct for initial calls.
    pub args_from_state: String,
    /// Code to save hot registers back to state.
    pub save_to_state: String,
    /// Code to save hot registers back to state, without instret.
    pub save_to_state_no_instret: String,
    /// Set of hot register indices for fast lookup.
    pub hot_reg_set: HashSet<u8>,
    /// Whether instret counting is enabled.
    pub counts_instret: bool,
    /// Whether tracing is enabled for register access.
    pub trace_regs: bool,
    /// Whether fixed addresses are used for state/memory.
    pub fixed_addresses: bool,
}

/// `s` without its leading `", "` separators.
fn push_trimmed(out: &mut String, s: &str)
    ensures
        final(out)@ == old(out)@ + trim_sep(s@),
{
    let chars = str_chars(s);
    let mut i: usize = 0;
    assert(s@.subrange(0, s@.len() as int) =~= s@);
    while i < chars.len() && i + 1 < chars.len() && chars[i] == ',' && chars[i + 1] == ' '
        invariant
            chars@ == s@,
            i <= chars.len(),
            trim_sep(s@) == trim_sep(s@.subrange(i as int, s@.len() as int)),
        decreases chars.len() - i,
    {
        assert(s@.subrange(i as int, s@.len() as int).subrange(2, s@.len() - i) =~= s@.subrange(
            i + 2,
            s@.len() as int,
        ));
        i += 2;
    }
    let ghost rest = s@.subrange(i as int, s@.len() as int);
    assert(trim_sep(rest) == rest);
    let ghost start = out@;
    let mut k: usize = i;
    while k < chars.len()
        invariant
            chars@ == s@,
            i <= k <= chars.len(),
            out@ == start + s@.subrange(i as int, k as int),
        decreases chars.len() - k,
    {
        push_char(out, chars[k]);
        assert(s@.subrange(i as int, k + 1) =~= s@.subrange(i as int, k as int).push(s@[k as int]));
        k += 1;
    }
    assert(s@.subrange(i as int, k as int) =~= rest);
}

impl FnSignature {
    /// Whether every hot register is a register number.
    pub open spec fn wf(&self) -> bool {
        forall|r: u8| self.hot_reg_set@.contains(r) ==> r < 32
    }

    /// Create the function signature of a configuration.
    pub fn new(config: &EmitConfig) -> (r: Self)
        requires
            forall|i: int| 0 <= i < config.hot_regs@.len() ==> config.hot_regs@[i] < 32,
        ensures
            r.wf(),
            r.params@ == signature_text(*config).0,
            r.args@ == signature_text(*config).1,
            r.args_from_state@ == signature_text(*config).2,
            r.save_to_state@ == signature_text(*config).3,
            r.save_to_state_no_instret@ == signature_text(*config).4,
            r.hot_reg_set@ == config.hot_regs@.to_set(),
            r.counts_instret == (config.instret_mode != InstretMode::Off),
            r.trace_regs == (config.tracer_config.builtin != Some(crate::c_config::TracerKind::NoTracer)),
            r.fixed_addresses == config.fixed_addresses.is_some(),
    {
        let rtype = reg_type(config.xlen);
        let counts_instret = config.instret_mode.counts();
        let trace_regs = !config.tracer_config.is_none();
        let fixed_addresses = config.fixed_addresses.is_some();
        let state = state_ref(fixed_addresses);
        let ghost st = state@;
        let ghost rt = rtype@;

        let mut params = String::new();
        let mut args = String::new();
        let mut args_from_state = String::new();
        let mut save_to_state = String::new();
        let mut save_to_state_no_instret = String::new();

        if !fixed_addresses {
            push_str(&mut params, "RvState* restrict state, uint8_t* restrict memory");
            push_str(&mut args, "state, memory");
            push_str(&mut args_from_state, "state, state->memory");
        }
        proof {
            assert((params@, args@, args_from_state@, save_to_state@, save_to_state_no_instret@)
                == sig_base(fixed_addresses));
        }
        let ghost t0 = (params@, args@, args_from_state@, save_to_state@, save_to_state_no_instret@);

        if counts_instret {
            if !params.as_str().is_empty() {
                push_str(&mut params, ", ");
                push_str(&mut args, ", ");
                push_str(&mut args_from_state, ", ");
            }
            push_str(&mut params, "uint64_t instret");
            push_str(&mut args, "instret");
            push_str(&mut args_from_state, state);
            push_str(&mut args_from_state, "->instret");
            push_str(&mut save_to_state, state);
            push_str(&mut save_to_state, "->instret = instret;");
        }
        proof {
            assert((params@, args@, args_from_state@, save_to_state@, save_to_state_no_instret@)
                == sig_instret(t0, counts_instret, st));
        }
        let ghost t1 = (params@, args@, args_from_state@, save_to_state@, save_to_state_no_instret@);

        let tc = &config.tracer_config;
        if !tc.passed_var_params.as_str().is_empty() {
            if params.as_str().is_empty() {
                push_trimmed(&mut params, tc.passed_var_params.as_str());
                push_trimmed(&mut args, tc.passed_var_args.as_str());
                push_trimmed(&mut args_from_state, tc.passed_var_args_from_state.as_str());
            } else {
                push_str(&mut params, tc.passed_var_params.as_str());
                push_str(&mut args, tc.passed_var_args.as_str());
                push_str(&mut args_from_state, tc.passed_var_args_from_state.as_str());
            }
        }
        push_str(&mut save_to_state, tc.passed_var_save_to_state.as_str());
        push_str(&mut save_to_state_no_instret, tc.passed_var_save_to_state.as_str());
        proof {
            assert((params@, args@, args_from_state@, save_to_state@, save_to_state_no_instret@)
                == sig_tracer(
                t1,
                tc.passed_var_params@,
                tc.passed_var_args@,
                tc.passed_var_args_from_state@,
                tc.passed_var_save_to_state@,
            ));
        }
        let ghost t2 = (params@, args@, args_from_state@, save_to_state@, save_to_state_no_instret@);

        let mut hot_reg_set: HashSet<u8> = HashSet::new();
        let mut k: usize = 0;
        while k < config.hot_regs.len()
            invariant
                k <= config.hot_regs.len(),
                forall|i: int| 0 <= i < config.hot_regs@.len() ==> config.hot_regs@[i] < 32,
                state@ == st,
                rtype@ == rt,
                hot_reg_set@ == config.hot_regs@.take(k as int).to_set(),
                (params@, args@, args_from_state@, save_to_state@, save_to_state_no_instret@)
                    == sig_hot(t2, rt, st, config.hot_regs@.take(k as int)),
            decreases config.hot_regs.len() - k,
        {
            let reg = config.hot_regs[k];
            let ghost before = (params@, args@, args_from_state@, save_to_state@, save_to_state_no_instret@);
            hot_reg_set.insert(reg);
            let name = abi_name(reg);
            if !params.as_str().is_empty() {
                push_str(&mut params, ", ");
                push_str(&mut args, ", ");
                push_str(&mut args_from_state, ", ");
            }
            push_str(&mut params, rtype);
            push_str(&mut params, " ");
            push_str(&mut params, name);
            push_str(&mut args, name);
            let mut regs = String::new();
            push_str(&mut regs, state);
            push_str(&mut regs, "->regs[");
            push_decimal(&mut regs, reg as u64);
            push_str(&mut regs, "]");
            push_str(&mut args_from_state, regs.as_str());
            let mut reg_save = String::new();
            push_str(&mut reg_save, " ");
            push_str(&mut reg_save, regs.as_str());
            push_str(&mut reg_save, " = ");
            push_str(&mut reg_save, name);
            push_str(&mut reg_save, ";");
            push_str(&mut save_to_state, reg_save.as_str());
            push_str(&mut save_to_state_no_instret, reg_save.as_str());
            proof {
                let h = config.hot_regs@.take(k + 1);
                assert(h.drop_last() =~= config.hot_regs@.take(k as int));
                assert(h.last() == reg);
                assert(config.hot_regs@.take(k + 1).to_set() =~= config.hot_regs@.take(
                    k as int,
                ).to_set().insert(reg)) by {
                    assert(config.hot_regs@.take(k + 1) =~= config.hot_regs@.take(k as int).push(
                        reg,
                    ));
                    config.hot_regs@.take(k as int).lemma_push_to_set_commute(reg);
                }
                let rg = st + "->regs["@ + decimal(reg as nat) + "]"@;
                let nm = REG_ABI_NAMES@[reg as int]@;
                assert(regs@ =~= rg);
                assert(reg_save@ =~= " "@ + rg + " = "@ + nm + ";"@);
                if before.0.len() == 0 {
                    assert(params@ =~= before.0 + (rt + " "@ + nm));
                    assert(args_from_state@ =~= before.2 + rg);
                } else {
                    assert(params@ =~= before.0 + ", "@ + (rt + " "@ + nm));
                    assert(args_from_state@ =~= before.2 + ", "@ + rg);
                }
                assert(save_to_state@ =~= before.3 + reg_save@);
            }
            k += 1;
        }
        proof {
            assert(config.hot_regs@.take(k as int) =~= config.hot_regs@);
        }
        FnSignature {
            params,
            args,
            args_from_state,
            save_to_state,
            save_to_state_no_instret,
            hot_reg_set,
            counts_instret,
            trace_regs,
            fixed_addresses,
        }
    }

    /// Whether a register is hot.
    pub fn is_hot_reg(&self, reg: u8) -> (r: bool)
        ensures
            r == self.hot_reg_set@.contains(reg),
    {
        self.hot_reg_set.contains(&reg)
    }

    /// C expression reading a register: `0` for x0, the parameter name of a
    /// hot register, the state slot otherwise.
    pub fn reg_read(&self, reg: u8) -> (r: String)
        requires
            self.wf(),
        ensures
            r@ == reg_read_text(self.hot_reg_set@, self.fixed_addresses, reg),
    {
        let mut s = String::new();
        if reg == 0 {
            push_str(&mut s, "0");
        } else if self.is_hot_reg(reg) {
            push_str(&mut s, abi_name(reg));
        } else {
            push_str(&mut s, state_ref(self.fixed_addresses));
            push_str(&mut s, "->regs[");
            push_decimal(&mut s, reg as u64);
            push_str(&mut s, "]");
        }
        s
    }

    /// C statement writing `value` to a register: nothing for x0, an
    /// assignment to the parameter of a hot register, to the state slot
    /// otherwise.
    pub fn reg_write(&self, reg: u8, value: &str) -> (r: String)
        requires
            self.wf(),
        ensures
            r@ == reg_write_text(self.hot_reg_set@, self.fixed_addresses, reg, value@),
    {
        let mut s = String::new();
        if reg == 0 {
        } else if self.is_hot_reg(reg) {
            push_str(&mut s, abi_name(reg));
            push_str(&mut s, " = ");
            push_str(&mut s, value);
            push_str(&mut s, ";");
        } else {
            push_str(&mut s, state_ref(self.fixed_addresses));
            push_str(&mut s, "->regs[");
            push_decimal(&mut s, reg as u64);
            push_str(&mut s, "] = ");
            push_str(&mut s, value);
            push_str(&mut s, ";");
        }
        s
    }

    /// `instret += count;` when instructions are counted, nothing otherwise.
    pub fn instret_increment(&self, count: u32) -> (r: String)
        ensures
            r@ == if self.counts_instret {
                "instret += "@ + decimal(count as nat) + ";"@
            } else {
                Seq::empty()
            },
    {
        let mut s = String::new();
        if self.counts_instret {
            push_str(&mut s, "instret += ");
            push_decimal(&mut s, count as u64);
            push_str(&mut s, ";");
        }
        s
    }
}

/// The state reference as text.
pub open spec fn state_text(fixed_addresses: bool) -> Seq<char> {
    if fixed_addresses {
        STATE_FIXED_REF@
    } else {
        "state"@
    }
}

/// C expression reading a register: `0` for x0, the parameter name of a hot
/// register, the state slot otherwise.
pub open spec fn reg_read_text(hot: Set<u8>, fixed_addresses: bool, reg: u8) -> Seq<char> {
    if reg == 0 {
        "0"@
    } else if hot.contains(reg) {
        REG_ABI_NAMES@[reg as int]@
    } else {
        state_text(fixed_addresses) + "->regs["@ + decimal(reg as nat) + "]"@
    }
}

/// C statement writing `value` to a register: nothing for x0, an assignment
/// to the parameter of a hot register, to the state slot otherwise.
pub open spec fn reg_write_text(hot: Set<u8>, fixed_addresses: bool, reg: u8, value: Seq<char>) -> Seq<
    char,
> {
    if reg == 0 {
        Seq::empty()
    } else if hot.contains(reg) {
        REG_ABI_NAMES@[reg as int]@ + " = "@ + value + ";"@
    } else {
        state_text(fixed_addresses) + "->regs["@ + decimal(reg as nat) + "] = "@ + value + ";"@
    }
}

/// Writing a register other than x0 assigns to exactly the expression that
/// reading it gives.
pub proof fn law_write_assigns_read(hot: Set<u8>, fixed_addresses: bool, reg: u8, value: Seq<char>)
    requires
        reg != 0,
    ensures
        reg_write_text(hot, fixed_addresses, reg, value) == reg_read_text(hot, fixed_addresses, reg)
            + " = "@ + value + ";"@,
{
    if !hot.contains(reg) {
        reveal_strlit("]");
        reveal_strlit("] = ");
        reveal_strlit(" = ");
        assert("] = "@ =~= "]"@ + " = "@);
        assert(reg_write_text(hot, fixed_addresses, reg, value) =~= reg_read_text(
            hot,
            fixed_addresses,
            reg,
        ) + " = "@ + value + ";"@);
    } else {
        assert(reg_write_text(hot, fixed_addresses, reg, value) =~= reg_read_text(
            hot,
            fixed_addresses,
            reg,
        ) + " = "@ + value + ";"@);
    }
}

} // verus!
