//! C backend configuration: compiler selection, platform argument-slot counts
//! and the hot-register budget.

use vstd::prelude::*;
use crate::config::InstretMode;
use crate::text::{str_chars, push_str, string_of};

verus! {

broadcast use vstd::string::group_string_axioms;

/// The word that marks a clang-based compiler command.
pub open spec fn clang_word() -> Seq<char> {
    seq!['c', 'l', 'a', 'n', 'g']
}

/// Whether `pat` occurs in `s` at position `i`.
pub open spec fn occurs_at(s: Seq<char>, pat: Seq<char>, i: int) -> bool {
    0 <= i && i + pat.len() <= s.len() && s.subrange(i, i + pat.len()) == pat
}

/// Whether `pat` occurs somewhere in `s`.
pub open spec fn occurs_in(s: Seq<char>, pat: Seq<char>) -> bool {
    exists|i: int| occurs_at(s, pat, i)
}

/// Position of the last `/` in `s`, or -1.
pub open spec fn last_slash(s: Seq<char>) -> int
    decreases s.len(),
{
    if s.len() == 0 {
        -1
    } else if s.last() == '/' {
        s.len() - 1
    } else {
        last_slash(s.drop_last())
    }
}

/// The part of a path after its last `/`.
pub open spec fn basename(s: Seq<char>) -> Seq<char> {
    s.subrange(last_slash(s) + 1, s.len() as int)
}

/// Version suffix of a compiler command: for clang-based commands, what
/// follows `clang` at the start of the basename (`clang-20` gives `-20`);
/// empty otherwise.
pub open spec fn version_suffix(command: Seq<char>) -> Seq<char> {
    let b = basename(command);
    if occurs_in(command, clang_word()) && occurs_at(b, clang_word(), 0) {
        b.skip(5)
    } else {
        Seq::empty()
    }
}

proof fn lemma_last_slash(s: Seq<char>)
    ensures
        -1 <= last_slash(s) < s.len(),
        last_slash(s) >= 0 ==> s[last_slash(s)] == '/',
        forall|k: int| last_slash(s) < k < s.len() ==> s[k] != '/',
    decreases s.len(),
{
    if s.len() > 0 && s.last() != '/' {
        lemma_last_slash(s.drop_last());
        assert forall|k: int| last_slash(s) < k < s.len() implies s[k] != '/' by {
            if k < s.len() - 1 {
                assert(s.drop_last()[k] == s[k]);
            }
        }
    }
}

/// C compiler to use for generated code.
///
/// Clang and GCC are told apart by the command name; for clang the linker
/// (lld) version is derived from the compiler command unless set explicitly.
#[derive(Clone, Debug, PartialEq, Eq)]
pub struct Compiler {
    command: String,
    linker: Option<String>,
}

impl Compiler {
    /// The command that invokes the compiler.
    pub closed spec fn command_view(&self) -> Seq<char> {
        self.command@
    }

    /// The explicitly chosen linker, if any.
    pub closed spec fn linker_view(&self) -> Option<Seq<char>> {
        match &self.linker {
            Some(l) => Some(l@),
            None => None,
        }
    }

    /// Compiler with the given command and no explicit linker.
    pub fn new(command: &str) -> (r: Self)
        ensures
            r.command_view() == command@,
            r.linker_view() == None::<Seq<char>>,
    {
        Compiler { command: string_of(command), linker: None }
    }

    /// Default clang compiler.
    pub fn clang() -> (r: Self)
        ensures
            r.command_view() == clang_word(),
            r.linker_view() == None::<Seq<char>>,
    {
        proof {
            reveal_strlit("clang");
        }
        Self::new("clang")
    }

    /// Default gcc compiler.
    pub fn gcc() -> (r: Self)
        ensures
            r.command_view() == seq!['g', 'c', 'c'],
            r.linker_view() == None::<Seq<char>>,
    {
        proof {
            reveal_strlit("gcc");
        }
        Self::new("gcc")
    }

    /// Set an explicit linker command (overrides derivation).
    pub fn with_linker(self, linker: &str) -> (r: Self)
        ensures
            r.command_view() == self.command_view(),
            r.linker_view() == Some(linker@),
    {
        Compiler { command: self.command, linker: Some(string_of(linker)) }
    }

    /// Command to invoke.
    pub fn command(&self) -> (r: &str)
        ensures
            r@ == self.command_view(),
    {
        self.command.as_str()
    }

    /// Whether this is a clang-based compiler (the command contains `clang`).
    pub fn is_clang(&self) -> (r: bool)
        ensures
            r == occurs_in(self.command_view(), clang_word()),
    {
        let chars = str_chars(self.command.as_str());
        let pat = str_chars("clang");
        proof {
            reveal_strlit("clang");
            assert(pat@ =~= clang_word());
        }
        find_at_or_after(&chars, &pat, 0).is_some()
    }

    /// The linker to pass with `-fuse-ld=`: none for gcc; for clang the
    /// explicit linker, or `lld` followed by the compiler's version suffix.
    pub fn linker(&self) -> (r: Option<String>)
        ensures
            match r {
                None => !occurs_in(self.command_view(), clang_word()),
                Some(l) => occurs_in(self.command_view(), clang_word()) && l@ == match self.linker_view() {
                    Some(x) => x,
                    None => seq!['l', 'l', 'd'] + version_suffix(self.command_view()),
                },
            },
    {
        if !self.is_clang() {
            return None;
        }
        match &self.linker {
            Some(l) => Some(string_of(l.as_str())),
            None => {
                let mut s = string_of("lld");
                proof {
                    reveal_strlit("lld");
                }
                let suffix = self.version_suffix();
                push_str(&mut s, suffix.as_str());
                Some(s)
            },
        }
    }

    /// The `llvm-addr2line` command matching the compiler version.
    pub fn addr2line(&self) -> (r: String)
        ensures
            r@ == seq!['l', 'l', 'v', 'm', '-', 'a', 'd', 'd', 'r', '2', 'l', 'i', 'n', 'e']
                + version_suffix(self.command_view()),
    {
        let mut s = string_of("llvm-addr2line");
        proof {
            reveal_strlit("llvm-addr2line");
        }
        let suffix = self.version_suffix();
        push_str(&mut s, suffix.as_str());
        s
    }

    /// Version suffix of the command (`clang-20` gives `-20`; gcc gives nothing).
    fn version_suffix(&self) -> (r: String)
        ensures
            r@ == version_suffix(self.command_view()),
    {
        let chars = str_chars(self.command.as_str());
        let pat = str_chars("clang");
        proof {
            reveal_strlit("clang");
            assert(pat@ =~= clang_word());
        }
        if find_at_or_after(&chars, &pat, 0).is_none() {
            return String::new();
        }
        // Basename: what follows the last '/'.
        let mut start: usize = chars.len();
        while start > 0 && chars[start - 1] != '/'
            invariant
                start <= chars.len(),
                forall|k: int| start <= k < chars.len() ==> chars@[k] != '/',
            decreases start,
        {
            start -= 1;
        }
        proof {
            lemma_last_slash(chars@);
            if start > 0 {
                assert(chars@[start - 1] == '/');
                assert(last_slash(chars@) == start - 1);
            } else {
                assert(last_slash(chars@) == -1);
            }
        }
        let ghost base = chars@.subrange(start as int, chars@.len() as int);
        let mut out = String::new();
        if chars.len() - start >= 5 && chars[start] == 'c' && chars[start + 1] == 'l'
            && chars[start + 2] == 'a' && chars[start + 3] == 'n' && chars[start + 4] == 'g' {
            let mut k = start + 5;
            while k < chars.len()
                invariant
                    start + 5 <= k <= chars.len(),
                    out@ == chars@.subrange(start + 5, k as int),
                decreases chars.len() - k,
            {
                crate::text::push_char(&mut out, chars[k]);
                proof {
                    assert(chars@.subrange(start + 5, k + 1) =~= chars@.subrange(
                        start + 5,
                        k as int,
                    ).push(chars@[k as int]));
                }
                k += 1;
            }
            proof {
                assert(base.subrange(0, 5) =~= clang_word());
                assert(base.skip(5) =~= chars@.subrange(start + 5, chars@.len() as int));
            }
        } else {
            proof {
                if occurs_at(base, clang_word(), 0) {
                    assert(base[0] == clang_word()[0]);
                    assert(base.subrange(0, 5)[1] == 'l');
                    assert(base.subrange(0, 5)[2] == 'a');
                    assert(base.subrange(0, 5)[3] == 'n');
                    assert(base.subrange(0, 5)[4] == 'g');
                }
            }
        }
        out
    }
}

impl Default for Compiler {
    fn default() -> (r: Self)
        ensures
            r.command_view() == clang_word(),
            r.linker_view() == None::<Seq<char>>,
    {
        Self::clang()
    }
}

/// First position at or after `from` where `pat` occurs in `s`.
pub fn find_at_or_after(s: &Vec<char>, pat: &Vec<char>, from: usize) -> (r: Option<usize>)
    ensures
        match r {
            Some(i) => from <= i && occurs_at(s@, pat@, i as int) && forall|k: int|
                from <= k < i ==> !occurs_at(s@, pat@, k),
            None => forall|k: int| from <= k ==> !occurs_at(s@, pat@, k),
        },
        from == 0 ==> (r.is_some() == occurs_in(s@, pat@)),
{
    if pat.len() > s.len() {
        proof {
            assert forall|k: int| from <= k implies !occurs_at(s@, pat@, k) by {}
            if from == 0 {
                assert forall|k: int| !occurs_at(s@, pat@, k) by {}
            }
        }
        return None;
    }
    let mut i = from;
    while i <= s.len() - pat.len()
        invariant
            from <= i,
            pat.len() <= s.len(),
            forall|k: int| from <= k < i ==> !occurs_at(s@, pat@, k),
        decreases s.len() - i,
    {
        let mut j: usize = 0;
        let mut matched = true;
        while j < pat.len()
            invariant
                j <= pat.len(),
                i + pat.len() <= s.len(),
                matched == forall|t: int| 0 <= t < j ==> s@[i + t] == pat@[t],
            decreases pat.len() - j,
        {
            if s[i + j] != pat[j] {
                matched = false;
            }
            j += 1;
        }
        if matched {
            assert(s@.subrange(i as int, i + pat.len()) =~= pat@);
            proof {
                if from == 0 {
                    assert(occurs_at(s@, pat@, i as int));
                }
            }
            return Some(i);
        }
        proof {
            if occurs_at(s@, pat@, i as int) {
                let t = choose|t: int| 0 <= t < pat.len() && s@[i + t] != pat@[t];
                assert(s@.subrange(i as int, i + pat.len())[t] == s@[i + t]);
            }
        }
        i += 1;
    }
    proof {
        assert forall|k: int| from <= k implies !occurs_at(s@, pat@, k) by {
            if k >= i {
            }
        }
        if from == 0 {
            assert forall|k: int| !occurs_at(s@, pat@, k) by {
                if k < 0 {
                } else {
                    assert(from <= k);
                }
            }
        }
    }
    None
}

/// x86-64 `preserve_none`: argument registers used for block parameters
/// (one of the twelve is kept free to ease register pressure).
pub const X86_64_DEFAULT_TOTAL_SLOTS: usize = 11;

/// AArch64 `preserve_none`: argument registers available for block parameters.
pub const AARCH64_DEFAULT_TOTAL_SLOTS: usize = 24;

/// Fixed slots when instret counting is enabled (state + memory + instret).
pub const FIXED_SLOTS_WITH_INSTRET: usize = 3;

/// Fixed slots when instret counting is disabled (state + memory).
pub const FIXED_SLOTS_NO_INSTRET: usize = 2;

/// Architecture of the machine the generated C code runs on.
#[derive(Clone, Copy, Debug, PartialEq, Eq, Structural)]
pub enum HostArch {
    X86_64,
    Aarch64,
    Other,
}

/// Platform-specific default number of argument slots for the C backend.
pub fn default_total_slots(arch: HostArch) -> (r: usize)
    ensures
        r == if arch == HostArch::Aarch64 {
            AARCH64_DEFAULT_TOTAL_SLOTS
        } else {
            X86_64_DEFAULT_TOTAL_SLOTS
        },
{
    match arch {
        HostArch::Aarch64 => AARCH64_DEFAULT_TOTAL_SLOTS,
        _ => X86_64_DEFAULT_TOTAL_SLOTS,
    }
}

/// Built-in tracer kinds.
#[derive(Clone, Copy, Debug, PartialEq, Eq, Structural)]
pub enum TracerKind {
    NoTracer,
    Preflight,
    Stats,
    Ffi,
    Dynamic,
    Debug,
    Spike,
    Diff,
    BufferedDiff,
}

/// Tracer configuration, as far as code generation reads it: which built-in
/// tracer is used (`None` for a custom tracer header), the tracer variables
/// passed to block functions as arguments, and the C fragments that declare,
/// pass and save those variables (as the tracer renders them for the guest's
/// register width; each is empty or starts with `, `, but the save code).
#[derive(Clone, Debug)]
pub struct TracerConfig {
    pub builtin: Option<TracerKind>,
    pub passed_vars: Vec<String>,
    pub passed_var_params: String,
    pub passed_var_args: String,
    pub passed_var_args_from_state: String,
    pub passed_var_save_to_state: String,
}

impl TracerConfig {
    /// No tracing.
    pub fn none() -> (r: Self)
        ensures
            r.builtin == Some(TracerKind::NoTracer),
            r.passed_vars@.len() == 0,
            r.passed_var_params@.len() == 0,
            r.passed_var_args@.len() == 0,
            r.passed_var_args_from_state@.len() == 0,
            r.passed_var_save_to_state@.len() == 0,
    {
        TracerConfig {
            builtin: Some(TracerKind::NoTracer),
            passed_vars: Vec::new(),
            passed_var_params: String::new(),
            passed_var_args: String::new(),
            passed_var_args_from_state: String::new(),
            passed_var_save_to_state: String::new(),
        }
    }

    /// Whether tracing is off.
    pub fn is_none(&self) -> (r: bool)
        ensures
            r == (self.builtin == Some(TracerKind::NoTracer)),
    {
        match self.builtin {
            Some(TracerKind::NoTracer) => true,
            _ => false,
        }
    }

    /// The built-in tracer kind, if a built-in tracer is used.
    pub fn builtin_kind(&self) -> (r: Option<TracerKind>)
        ensures
            r == self.builtin,
    {
        self.builtin
    }
}

/// Number of argument slots that state, memory and instret occupy.
pub open spec fn fixed_slots(instret_mode: InstretMode, fixed_addresses: bool) -> int {
    let counts = instret_mode != InstretMode::Off;
    if fixed_addresses {
        if counts {
            1
        } else {
            0
        }
    } else if counts {
        FIXED_SLOTS_WITH_INSTRET as int
    } else {
        FIXED_SLOTS_NO_INSTRET as int
    }
}

/// Number of hot RISC-V registers that fit into `total_slots` argument slots
/// once the fixed slots and the tracer's passed variables are taken (never
/// negative).
pub fn compute_num_hot_regs(
    total_slots: usize,
    instret_mode: InstretMode,
    tracer_config: &TracerConfig,
    fixed_addresses: bool,
) -> (r: usize)
    ensures
        r == if total_slots >= fixed_slots(instret_mode, fixed_addresses)
            + tracer_config.passed_vars@.len() {
            total_slots - fixed_slots(instret_mode, fixed_addresses)
                - tracer_config.passed_vars@.len()
        } else {
            0
        },
{
    let fixed: usize = if fixed_addresses {
        if instret_mode.counts() {
            1
        } else {
            0
        }
    } else if instret_mode.counts() {
        FIXED_SLOTS_WITH_INSTRET
    } else {
        FIXED_SLOTS_NO_INSTRET
    };
    let extra = tracer_config.passed_vars.len();
    total_slots.saturating_sub(fixed).saturating_sub(extra)
}

} // verus!
