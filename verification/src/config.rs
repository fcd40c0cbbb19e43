//! Emit configuration: instret handling, address translation, code-generation
//! flags and hot-register selection.

use vstd::prelude::*;
use crate::c_config::{
    Compiler, HostArch, TracerConfig, TracerKind, compute_num_hot_regs, default_total_slots,
    fixed_slots, AARCH64_DEFAULT_TOTAL_SLOTS, X86_64_DEFAULT_TOTAL_SLOTS, FIXED_SLOTS_WITH_INSTRET,
};

verus! {

/// Number of registers for the I extension.
pub const NUM_REGS_I: usize = 32;

/// Number of registers for the E extension.
pub const NUM_REGS_E: usize = 16;

/// Register priority order for hot register selection (x0 excluded).
pub const REG_PRIORITY: [u8; 31] = [
    1,  // ra
    2,  // sp
    10, 11, 12, 13, 14, 15, 16, 17,  // a0-a7
    5, 6, 7,  // t0-t2
    28, 29, 30, 31,  // t3-t6
    8, 9,  // s0-s1
    18, 19, 20, 21, 22, 23, 24, 25, 26, 27,  // s2-s11
    3,  // gp
    4,  // tp
];

/// Register width of the guest.
#[derive(Clone, Copy, Debug, PartialEq, Eq, Structural)]
pub enum Xlen {
    Rv32,
    Rv64,
}

impl Xlen {
    /// Register width in bits.
    pub open spec fn bits(self) -> u8 {
        match self {
            Xlen::Rv32 => 32,
            Xlen::Rv64 => 64,
        }
    }

    /// Register width in bits.
    pub fn value(self) -> (r: u8)
        ensures
            r == self.bits(),
    {
        match self {
            Xlen::Rv32 => 32,
            Xlen::Rv64 => 64,
        }
    }

    /// Bytes per register.
    pub fn reg_bytes(self) -> (r: usize)
        ensures
            r == self.bits() / 8,
    {
        match self {
            Xlen::Rv32 => 4,
            Xlen::Rv64 => 8,
        }
    }
}

/// Instruction retirement counting mode.
#[derive(Clone, Copy, Debug, PartialEq, Eq, Structural)]
pub enum InstretMode {
    /// No instruction counting.
    Off,
    /// Count instructions but don't suspend.
    Count,
    /// Count instructions and suspend at limit (checked at block boundaries).
    Suspend,
    /// Count instructions and suspend at limit (checked after every instruction).
    PerInstruction,
}

impl Default for InstretMode {
    fn default() -> (r: Self)
        ensures
            r == InstretMode::Count,
    {
        InstretMode::Count
    }
}

impl InstretMode {
    /// Whether instructions are counted.
    pub fn counts(&self) -> (r: bool)
        ensures
            r == (*self != InstretMode::Off),
    {
        *self != InstretMode::Off
    }

    /// Whether execution suspends at the instruction limit.
    pub fn suspends(&self) -> (r: bool)
        ensures
            r == (*self == InstretMode::Suspend || *self == InstretMode::PerInstruction),
    {
        match self {
            InstretMode::Suspend | InstretMode::PerInstruction => true,
            _ => false,
        }
    }

    /// Whether the suspension check follows every instruction.
    pub fn per_instruction(&self) -> (r: bool)
        ensures
            r == (*self == InstretMode::PerInstruction),
    {
        *self == InstretMode::PerInstruction
    }

    /// Numeric value exported to C as `RV_INSTRET_MODE`.
    pub fn as_c_mode(&self) -> (r: u32)
        ensures
            r == match *self {
                InstretMode::Off => 0u32,
                InstretMode::Count => 1u32,
                InstretMode::Suspend => 2u32,
                InstretMode::PerInstruction => 3u32,
            },
    {
        match self {
            InstretMode::Off => 0,
            InstretMode::Count => 1,
            InstretMode::Suspend => 2,
            InstretMode::PerInstruction => 3,
        }
    }
}

/// Syscall handling mode for ECALL instructions.
#[derive(Clone, Copy, Debug, PartialEq, Eq, Structural)]
pub enum SyscallMode {
    /// Bare-metal syscalls (exit only).
    BareMetal,
    /// Linux-style syscalls (brk/mmap/read/write, etc).
    Linux,
}

impl Default for SyscallMode {
    fn default() -> (r: Self)
        ensures
            r == SyscallMode::BareMetal,
    {
        SyscallMode::BareMetal
    }
}

/// Address translation mode for memory accesses.
///
/// | Mode      | Mask address | Bounds check | Trap on OOB |
/// |-----------|--------------|--------------|-------------|
/// | Unchecked | No           | No           | No (guards) |
/// | Wrap      | Yes          | No           | No          |
/// | Bounds    | Yes          | Yes          | Yes         |
#[derive(Clone, Copy, Debug, PartialEq, Eq, Structural)]
pub enum AddressMode {
    /// Assume valid and pass through; guard pages catch out-of-bounds accesses.
    Unchecked,
    /// Mask addresses to the memory size (addresses wrap at the boundary).
    Wrap,
    /// Bounds check, trap, and mask.
    Bounds,
}

impl Default for AddressMode {
    fn default() -> (r: Self)
        ensures
            r == AddressMode::Wrap,
    {
        AddressMode::Wrap
    }
}

impl AddressMode {
    /// Whether addresses are masked to the memory size.
    pub fn needs_mask(self) -> (r: bool)
        ensures
            r == (self == AddressMode::Wrap || self == AddressMode::Bounds),
    {
        match self {
            AddressMode::Wrap | AddressMode::Bounds => true,
            AddressMode::Unchecked => false,
        }
    }

    /// Whether addresses are bounds-checked before access.
    pub fn needs_bounds_check(self) -> (r: bool)
        ensures
            r == (self == AddressMode::Bounds),
    {
        self == AddressMode::Bounds
    }

    /// Whether addresses are assumed valid (optimizer hints).
    pub fn assumes_valid(self) -> (r: bool)
        ensures
            r == (self == AddressMode::Unchecked),
    {
        self == AddressMode::Unchecked
    }
}

/// Code generation backend.
#[derive(Clone, Copy, Debug, PartialEq, Eq, Structural)]
pub enum Backend {
    /// Emit C code, compile with clang/gcc.
    C,
    /// Emit x86-64 assembly.
    X86Asm,
    /// Emit ARM64 assembly.
    ARM64Asm,
}

impl Default for Backend {
    fn default() -> (r: Self)
        ensures
            r == Backend::C,
    {
        Backend::C
    }
}

/// How much control-flow analysis the pipeline performs.
#[derive(Clone, Copy, Debug, PartialEq, Eq, Structural)]
pub enum AnalysisMode {
    /// Full CFG analysis: block merging, absorption, optimizations.
    FullCfg,
    /// Decode instructions and mark jump targets, without block merging.
    Basic,
}

impl Default for AnalysisMode {
    fn default() -> (r: Self)
        ensures
            r == AnalysisMode::FullCfg,
    {
        AnalysisMode::FullCfg
    }
}

/// Fixed addresses for the state structure and guest memory.
#[derive(Clone, Copy, Debug, PartialEq, Eq, Structural)]
pub struct FixedAddressConfig {
    /// Fixed address of the `RvState` structure.
    pub state_addr: u64,
    /// Fixed address of guest memory.
    pub memory_addr: u64,
}

impl Default for FixedAddressConfig {
    fn default() -> (r: Self)
        ensures
            r.state_addr == 0x10_0000_0000u64,
            r.memory_addr == 0x20_0000_0000u64,
    {
        FixedAddressConfig { state_addr: 0x10_0000_0000, memory_addr: 0x20_0000_0000 }
    }
}

/// Code generation feature flags.
#[derive(Clone, Copy, Debug)]
pub struct EmitFlags(u32);

/// Bit of the comment flag.
pub const EMIT_COMMENTS: u32 = 1;
/// Bit of the line-information flag.
pub const EMIT_LINE_INFO: u32 = 2;
/// Bit of the HTIF flag.
pub const HTIF_ENABLED: u32 = 4;
/// Bit of the HTIF-verbose flag.
pub const HTIF_VERBOSE: u32 = 8;

impl EmitFlags {
    /// Whether the flag with bit `mask` is set.
    pub closed spec fn has(self, mask: u32) -> bool {
        self.0 & mask != 0
    }

    /// No flag set.
    pub fn empty() -> (r: Self)
        ensures
            !r.has(EMIT_COMMENTS),
            !r.has(EMIT_LINE_INFO),
            !r.has(HTIF_ENABLED),
            !r.has(HTIF_VERBOSE),
    {
        assert(0u32 & 1 == 0 && 0u32 & 2 == 0 && 0u32 & 4 == 0 && 0u32 & 8 == 0) by (bit_vector);
        EmitFlags(0)
    }

    fn contains(self, mask: u32) -> (r: bool)
        ensures
            r == self.has(mask),
    {
        (self.0 & mask) != 0
    }

    fn set(&mut self, mask: u32, enabled: bool)
        requires
            mask == EMIT_COMMENTS || mask == EMIT_LINE_INFO || mask == HTIF_ENABLED || mask
                == HTIF_VERBOSE,
        ensures
            final(self).has(mask) == enabled,
            forall|m: u32|
                (m == EMIT_COMMENTS || m == EMIT_LINE_INFO || m == HTIF_ENABLED || m
                    == HTIF_VERBOSE) && m != mask ==> #[trigger] final(self).has(m) == old(
                    self,
                ).has(m),
    {
        let old_bits = self.0;
        if enabled {
            self.0 = old_bits | mask;
            assert((old_bits | mask) & mask != 0) by (bit_vector)
                requires
                    mask == 1 || mask == 2 || mask == 4 || mask == 8,
            ;
            assert forall|m: u32|
                (m == 1 || m == 2 || m == 4 || m == 8) && m != mask implies ((old_bits | mask) & m
                != 0) == (old_bits & m != 0) by {
                assert(((old_bits | mask) & m != 0) == (old_bits & m != 0)) by (bit_vector)
                    requires
                        mask == 1 || mask == 2 || mask == 4 || mask == 8,
                        m == 1 || m == 2 || m == 4 || m == 8,
                        m != mask,
                ;
            }
        } else {
            self.0 = old_bits & !mask;
            assert((old_bits & !mask) & mask == 0) by (bit_vector);
            assert forall|m: u32|
                (m == 1 || m == 2 || m == 4 || m == 8) && m != mask implies ((old_bits & !mask) & m
                != 0) == (old_bits & m != 0) by {
                assert(((old_bits & !mask) & m != 0) == (old_bits & m != 0)) by (bit_vector)
                    requires
                        mask == 1 || mask == 2 || mask == 4 || mask == 8,
                        m == 1 || m == 2 || m == 4 || m == 8,
                        m != mask,
                ;
            }
        }
    }

    /// Whether comments are emitted.
    pub fn emit_comments(self) -> (r: bool)
        ensures
            r == self.has(EMIT_COMMENTS),
    {
        self.contains(EMIT_COMMENTS)
    }

    /// Turn comment emission on or off; other flags are unchanged.
    pub fn set_emit_comments(&mut self, enabled: bool)
        ensures
            final(self).has(EMIT_COMMENTS) == enabled,
            final(self).has(EMIT_LINE_INFO) == old(self).has(EMIT_LINE_INFO),
            final(self).has(HTIF_ENABLED) == old(self).has(HTIF_ENABLED),
            final(self).has(HTIF_VERBOSE) == old(self).has(HTIF_VERBOSE),
    {
        self.set(EMIT_COMMENTS, enabled);
    }

    /// Whether `#line` information is emitted.
    pub fn emit_line_info(self) -> (r: bool)
        ensures
            r == self.has(EMIT_LINE_INFO),
    {
        self.contains(EMIT_LINE_INFO)
    }

    /// Turn line information on or off; other flags are unchanged.
    pub fn set_emit_line_info(&mut self, enabled: bool)
        ensures
            final(self).has(EMIT_LINE_INFO) == enabled,
            final(self).has(EMIT_COMMENTS) == old(self).has(EMIT_COMMENTS),
            final(self).has(HTIF_ENABLED) == old(self).has(HTIF_ENABLED),
            final(self).has(HTIF_VERBOSE) == old(self).has(HTIF_VERBOSE),
    {
        self.set(EMIT_LINE_INFO, enabled);
    }

    /// Whether the HTIF tohost interface is enabled.
    pub fn htif_enabled(self) -> (r: bool)
        ensures
            r == self.has(HTIF_ENABLED),
    {
        self.contains(HTIF_ENABLED)
    }

    /// Turn HTIF on or off; other flags are unchanged.
    pub fn set_htif_enabled(&mut self, enabled: bool)
        ensures
            final(self).has(HTIF_ENABLED) == enabled,
            final(self).has(EMIT_COMMENTS) == old(self).has(EMIT_COMMENTS),
            final(self).has(EMIT_LINE_INFO) == old(self).has(EMIT_LINE_INFO),
            final(self).has(HTIF_VERBOSE) == old(self).has(HTIF_VERBOSE),
    {
        self.set(HTIF_ENABLED, enabled);
    }

    /// Whether HTIF prints guest output.
    pub fn htif_verbose(self) -> (r: bool)
        ensures
            r == self.has(HTIF_VERBOSE),
    {
        self.contains(HTIF_VERBOSE)
    }

    /// Turn HTIF verbosity on or off; other flags are unchanged.
    pub fn set_htif_verbose(&mut self, enabled: bool)
        ensures
            final(self).has(HTIF_VERBOSE) == enabled,
            final(self).has(EMIT_COMMENTS) == old(self).has(EMIT_COMMENTS),
            final(self).has(EMIT_LINE_INFO) == old(self).has(EMIT_LINE_INFO),
            final(self).has(HTIF_ENABLED) == old(self).has(HTIF_ENABLED),
    {
        self.set(HTIF_VERBOSE, enabled);
    }
}

impl Default for EmitFlags {
    fn default() -> (r: Self)
        ensures
            !r.has(EMIT_COMMENTS),
            !r.has(EMIT_LINE_INFO),
            !r.has(HTIF_ENABLED),
            !r.has(HTIF_VERBOSE),
    {
        EmitFlags::empty()
    }
}

/// Registers of `prio` that exist when there are `num_regs` registers, in order.
pub open spec fn eligible(prio: Seq<u8>, num_regs: int) -> Seq<u8>
    decreases prio.len(),
{
    if prio.len() == 0 {
        Seq::empty()
    } else if (prio.last() as int) < num_regs {
        eligible(prio.drop_last(), num_regs).push(prio.last())
    } else {
        eligible(prio.drop_last(), num_regs)
    }
}

/// The hot registers chosen for `count` slots: the first `count` registers of
/// the priority order that exist.
pub open spec fn hot_choice(num_regs: int, count: int) -> Seq<u8> {
    let e = eligible(REG_PRIORITY@, num_regs);
    e.take(if count < e.len() {
        count
    } else {
        e.len() as int
    })
}

proof fn lemma_eligible_prefix(prio: Seq<u8>, num_regs: int, i: int, j: int)
    requires
        0 <= i <= j <= prio.len(),
    ensures
        eligible(prio.take(i), num_regs).len() <= eligible(prio.take(j), num_regs).len(),
        eligible(prio.take(j), num_regs).take(eligible(prio.take(i), num_regs).len() as int)
            == eligible(prio.take(i), num_regs),
    decreases j - i,
{
    if i < j {
        lemma_eligible_prefix(prio, num_regs, i, j - 1);
        assert(prio.take(j).drop_last() =~= prio.take(j - 1));
        let a = eligible(prio.take(i), num_regs);
        let b = eligible(prio.take(j - 1), num_regs);
        let c = eligible(prio.take(j), num_regs);
        assert(c.take(a.len() as int) =~= b.take(a.len() as int));
    } else {
        let a = eligible(prio.take(i), num_regs);
        assert(a.take(a.len() as int) =~= a);
    }
}

/// Position of a register in the priority order (-1 for x0 and non-registers).
spec fn priority_rank(r: u8) -> int {
    if r == 1 {
        0
    } else if r == 2 {
        1
    } else if r == 10 {
        2
    } else if r == 11 {
        3
    } else if r == 12 {
        4
    } else if r == 13 {
        5
    } else if r == 14 {
        6
    } else if r == 15 {
        7
    } else if r == 16 {
        8
    } else if r == 17 {
        9
    } else if r == 5 {
        10
    } else if r == 6 {
        11
    } else if r == 7 {
        12
    } else if r == 28 {
        13
    } else if r == 29 {
        14
    } else if r == 30 {
        15
    } else if r == 31 {
        16
    } else if r == 8 {
        17
    } else if r == 9 {
        18
    } else if r == 18 {
        19
    } else if r == 19 {
        20
    } else if r == 20 {
        21
    } else if r == 21 {
        22
    } else if r == 22 {
        23
    } else if r == 23 {
        24
    } else if r == 24 {
        25
    } else if r == 25 {
        26
    } else if r == 26 {
        27
    } else if r == 27 {
        28
    } else if r == 3 {
        29
    } else if r == 4 {
        30
    } else {
        -1
    }
}

/// The priority order lists every register but x0 once.
proof fn lemma_priority_distinct()
    ensures
        REG_PRIORITY@.no_duplicates(),
        forall|i: int| 0 <= i < 31 ==> 1 <= #[trigger] REG_PRIORITY@[i] < 32,
{
    assert forall|i: int| 0 <= i < 31 implies #[trigger] priority_rank(REG_PRIORITY@[i]) == i && 1
        <= REG_PRIORITY@[i] < 32 by {}
    assert forall|i: int, j: int|
        0 <= i < REG_PRIORITY@.len() && 0 <= j < REG_PRIORITY@.len() && i != j implies REG_PRIORITY@[i]
        != REG_PRIORITY@[j] by {
        assert(priority_rank(REG_PRIORITY@[i]) == i);
        assert(priority_rank(REG_PRIORITY@[j]) == j);
    }
}

/// The eligible registers are those of `prio` below `num_regs`, each once
/// when `prio` lists each once.
proof fn lemma_eligible_members(prio: Seq<u8>, num_regs: int)
    ensures
        forall|x: u8| eligible(prio, num_regs).contains(x) ==> prio.contains(x) && (x as int)
            < num_regs,
        prio.no_duplicates() ==> eligible(prio, num_regs).no_duplicates(),
    decreases prio.len(),
{
    broadcast use vstd::seq_lib::group_seq_properties;

    if prio.len() > 0 {
        let p = prio.drop_last();
        lemma_eligible_members(p, num_regs);
        assert forall|x: u8| p.contains(x) implies prio.contains(x) by {
            let k = choose|k: int| 0 <= k < p.len() && p[k] == x;
            assert(prio[k] == x);
        }
        let ep = eligible(p, num_regs);
        assert forall|x: u8| eligible(prio, num_regs).contains(x) implies prio.contains(x) && (x
            as int) < num_regs by {
            let e = eligible(prio, num_regs);
            let k = choose|k: int| 0 <= k < e.len() && e[k] == x;
            if k < ep.len() {
                assert(ep[k] == x);
                assert(ep.contains(x));
            } else {
                assert(x == prio.last());
                assert(prio[prio.len() - 1] == x);
            }
        }
        if prio.no_duplicates() {
            assert(p.no_duplicates()) by {
                assert forall|a: int, b: int| 0 <= a < p.len() && 0 <= b < p.len() && a != b implies p[a]
                    != p[b] by {
                    assert(prio[a] == p[a] && prio[b] == p[b]);
                }
            }
            assert(!p.contains(prio.last())) by {
                if p.contains(prio.last()) {
                    let k = choose|k: int| 0 <= k < p.len() && p[k] == prio.last();
                    assert(prio[k] == prio[prio.len() - 1]);
                }
            }
        }
    }
}

/// Hot registers are distinct registers other than x0 that exist, and there
/// are at most as many as the slots they were chosen for.
pub proof fn law_hot_registers_valid(num_regs: int, count: int)
    requires
        count >= 0,
    ensures
        hot_choice(num_regs, count).no_duplicates(),
        hot_choice(num_regs, count).len() <= count,
        forall|i: int|
            0 <= i < hot_choice(num_regs, count).len() ==> 1 <= #[trigger] hot_choice(
                num_regs,
                count,
            )[i] < 32 && (hot_choice(num_regs, count)[i] as int) < num_regs,
{
    let e = eligible(REG_PRIORITY@, num_regs);
    lemma_priority_distinct();
    lemma_eligible_members(REG_PRIORITY@, num_regs);
    let h = hot_choice(num_regs, count);
    assert forall|i: int| 0 <= i < h.len() implies 1 <= #[trigger] h[i] < 32 && (h[i] as int)
        < num_regs by {
        assert(h.len() <= e.len());
        assert(h[i] == e[i]);
        assert(e.contains(e[i]));
        assert(REG_PRIORITY@.contains(e[i]));
        let k = choose|k: int| 0 <= k < REG_PRIORITY@.len() && REG_PRIORITY@[k] == e[i];
        assert(1 <= REG_PRIORITY@[k] < 32);
    }
    assert forall|a: int, b: int| 0 <= a < h.len() && 0 <= b < h.len() && a != b implies h[a]
        != h[b] by {
        assert(h[a] == e[a] && h[b] == e[b]);
    }
}

/// Code generation configuration.
#[derive(Clone, Debug)]
pub struct EmitConfig {
    /// Register width of the guest.
    pub xlen: Xlen,
    /// Machine the generated C code runs on.
    pub host: HostArch,
    /// Number of registers: 32 for I extension, 16 for E extension.
    pub num_regs: usize,
    /// Registers passed as arguments (hot registers).
    pub hot_regs: Vec<u8>,
    /// Code generation backend.
    pub backend: Backend,
    /// Analysis mode (full CFG or linear scan).
    pub analysis_mode: AnalysisMode,
    /// Address translation mode.
    pub address_mode: AddressMode,
    /// Instruction retirement mode.
    pub instret_mode: InstretMode,
    /// Code generation feature flags.
    pub flags: EmitFlags,
    /// Memory address bits (default 32).
    pub memory_bits: u8,
    /// Tracer configuration.
    pub tracer_config: TracerConfig,
    /// C compiler to use.
    pub compiler: Compiler,
    /// Syscall handling mode.
    pub syscall_mode: SyscallMode,
    /// Compiled for calling exported functions rather than running from the entry point.
    pub export_functions: bool,
    /// Fixed addresses for state and memory (optional).
    pub fixed_addresses: Option<FixedAddressConfig>,
    /// Perf mode: disable instret/CSR reads for benchmarking.
    pub perf_mode: bool,
    /// Enable superblock formation (merging fall-through blocks after branches).
    pub enable_superblock: bool,
}

impl EmitConfig {
    /// Base configuration without hot registers.
    fn base(num_regs: usize, xlen: Xlen, host: HostArch) -> (r: Self)
        ensures
            r.num_regs == num_regs,
            r.xlen == xlen,
            r.host == host,
            r.hot_regs@.len() == 0,
            r.instret_mode == InstretMode::Count,
            r.fixed_addresses.is_none(),
            r.tracer_config.builtin == Some(TracerKind::NoTracer),
            r.tracer_config.passed_vars@.len() == 0,
            r.flags.has(EMIT_COMMENTS),
            r.flags.has(EMIT_LINE_INFO),
            !r.flags.has(HTIF_ENABLED),
            !r.flags.has(HTIF_VERBOSE),
            r.backend == Backend::C,
            r.analysis_mode == AnalysisMode::FullCfg,
            r.address_mode == AddressMode::Wrap,
            r.memory_bits == 32,
            r.syscall_mode == SyscallMode::BareMetal,
            !r.export_functions,
            !r.perf_mode,
            r.enable_superblock,
    {
        let mut flags = EmitFlags::empty();
        flags.set_emit_comments(true);
        flags.set_emit_line_info(true);
        flags.set_htif_enabled(false);
        flags.set_htif_verbose(false);
        EmitConfig {
            xlen,
            host,
            num_regs,
            hot_regs: Vec::new(),
            backend: Backend::C,
            analysis_mode: AnalysisMode::FullCfg,
            address_mode: AddressMode::Wrap,
            instret_mode: InstretMode::Count,
            flags,
            memory_bits: 32,
            tracer_config: TracerConfig::none(),
            compiler: Compiler::clang(),
            syscall_mode: SyscallMode::BareMetal,
            export_functions: false,
            fixed_addresses: None,
            perf_mode: false,
            enable_superblock: true,
        }
    }

    /// Configuration with the given register count and the platform's hot registers.
    pub fn new(num_regs: usize, xlen: Xlen, host: HostArch) -> (r: Self)
        requires
            num_regs == NUM_REGS_I || num_regs == NUM_REGS_E,
        ensures
            r.num_regs == num_regs,
            r.xlen == xlen,
            r.host == host,
            r.instret_mode == InstretMode::Count,
            r.fixed_addresses.is_none(),
            r.hot_regs@ == hot_choice(
                num_regs as int,
                default_total_slots_spec(host) - FIXED_SLOTS_WITH_INSTRET,
            ),
    {
        let mut config = Self::base(num_regs, xlen, host);
        config.init_hot_regs(default_total_slots(host));
        config
    }

    /// Configuration with the given slot budget and tracer.
    pub fn with_defaults(
        num_regs: usize,
        total_slots: usize,
        tracer_config: TracerConfig,
        xlen: Xlen,
        host: HostArch,
    ) -> (r: Self)
        ensures
            r.num_regs == num_regs,
            r.xlen == xlen,
            r.host == host,
            r.instret_mode == InstretMode::Count,
            r.fixed_addresses.is_none(),
            r.tracer_config.builtin == tracer_config.builtin,
            r.tracer_config.passed_vars@ == tracer_config.passed_vars@,
            r.hot_regs@ == hot_choice(
                num_regs as int,
                if total_slots >= 3 + tracer_config.passed_vars@.len() {
                    total_slots - 3 - tracer_config.passed_vars@.len()
                } else {
                    0
                },
            ),
    {
        let mut config = Self::base(num_regs, xlen, host);
        config.tracer_config = tracer_config;
        config.init_hot_regs(total_slots);
        config
    }

    /// Configuration with standard platform defaults (32 registers, no tracer).
    pub fn standard(xlen: Xlen, host: HostArch) -> (r: Self)
        ensures
            r.num_regs == NUM_REGS_I,
            r.xlen == xlen,
            r.instret_mode == InstretMode::Count,
            r.hot_regs@ == hot_choice(
                NUM_REGS_I as int,
                default_total_slots_spec(host) - FIXED_SLOTS_WITH_INSTRET,
            ),
    {
        Self::with_defaults(NUM_REGS_I, default_total_slots(host), TracerConfig::none(), xlen, host)
    }

    /// Choose the first `num_hot_regs` existing registers of the priority order.
    fn init_hot_regs_count(&mut self, num_hot_regs: usize)
        ensures
            final(self).hot_regs@ == hot_choice(old(self).num_regs as int, num_hot_regs as int),
            final(self).num_regs == old(self).num_regs,
            final(self).xlen == old(self).xlen,
            final(self).host == old(self).host,
            final(self).instret_mode == old(self).instret_mode,
            final(self).fixed_addresses == old(self).fixed_addresses,
            final(self).tracer_config.builtin == old(self).tracer_config.builtin,
            final(self).tracer_config.passed_vars@ == old(self).tracer_config.passed_vars@,
            final(self).flags == old(self).flags,
            final(self).perf_mode == old(self).perf_mode,
    {
        let mut hot: Vec<u8> = Vec::new();
        let mut count: usize = 0;
        let mut i: usize = 0;
        let ghost nr = self.num_regs as int;
        while i < 31 && count < num_hot_regs
            invariant
                i <= 31,
                nr == self.num_regs,
                count == hot@.len(),
                count <= num_hot_regs,
                hot@ == eligible(REG_PRIORITY@.take(i as int), nr),
                count == num_hot_regs ==> hot@ == hot_choice(nr, num_hot_regs as int),
            decreases 31 - i,
        {
            let reg = REG_PRIORITY[i];
            proof {
                assert(REG_PRIORITY@.take(i + 1).drop_last() =~= REG_PRIORITY@.take(i as int));
            }
            if (reg as usize) < self.num_regs {
                hot.push(reg);
                count += 1;
            }
            proof {
                if count == num_hot_regs {
                    lemma_eligible_prefix(REG_PRIORITY@, nr, i + 1, 31);
                    assert(REG_PRIORITY@.take(31) =~= REG_PRIORITY@);
                }
            }
            i += 1;
        }
        proof {
            if count < num_hot_regs {
                assert(REG_PRIORITY@.take(31) =~= REG_PRIORITY@);
                let e = eligible(REG_PRIORITY@, nr);
                assert(e.take(e.len() as int) =~= e);
            }
        }
        self.hot_regs = hot;
    }

    /// Choose hot registers for a C backend with `total_slots` argument slots:
    /// the slots left after state, memory, instret and tracer variables.
    pub fn init_hot_regs(&mut self, total_slots: usize)
        ensures
            final(self).hot_regs@ == hot_choice(
                old(self).num_regs as int,
                if total_slots >= fixed_slots(old(self).instret_mode, old(self).fixed_addresses.is_some())
                    + old(self).tracer_config.passed_vars@.len() {
                    total_slots - fixed_slots(
                        old(self).instret_mode,
                        old(self).fixed_addresses.is_some(),
                    ) - old(self).tracer_config.passed_vars@.len()
                } else {
                    0
                },
            ),
            final(self).num_regs == old(self).num_regs,
            final(self).xlen == old(self).xlen,
            final(self).host == old(self).host,
            final(self).instret_mode == old(self).instret_mode,
            final(self).fixed_addresses == old(self).fixed_addresses,
            final(self).tracer_config.builtin == old(self).tracer_config.builtin,
            final(self).tracer_config.passed_vars@ == old(self).tracer_config.passed_vars@,
            final(self).flags == old(self).flags,
            final(self).perf_mode == old(self).perf_mode,
    {
        let num_hot_regs = compute_num_hot_regs(
            total_slots,
            self.instret_mode,
            &self.tracer_config,
            self.fixed_addresses.is_some(),
        );
        self.init_hot_regs_count(num_hot_regs);
    }

    /// Whether a register number exists.
    pub fn is_valid_reg(&self, reg: u8) -> (r: bool)
        ensures
            r == ((reg as int) < self.num_regs),
    {
        (reg as usize) < self.num_regs
    }

    /// Whether a register is passed as a hot argument (x0 never is).
    pub fn is_hot_reg(&self, reg: u8) -> (r: bool)
        ensures
            r == (reg != 0 && self.hot_regs@.contains(reg)),
    {
        if reg == 0 {
            return false;
        }
        let mut k: usize = 0;
        while k < self.hot_regs.len()
            invariant
                reg != 0,
                k <= self.hot_regs.len(),
                forall|t: int| 0 <= t < k ==> self.hot_regs@[t] != reg,
            decreases self.hot_regs.len() - k,
        {
            if self.hot_regs[k] == reg {
                assert(self.hot_regs@[k as int] == reg);
                return true;
            }
            k += 1;
        }
        false
    }

    /// Number of hot registers.
    pub fn num_hot_regs(&self) -> (r: usize)
        ensures
            r == self.hot_regs@.len(),
    {
        self.hot_regs.len()
    }

    /// Whether tracing is enabled.
    pub fn has_tracing(&self) -> (r: bool)
        ensures
            r == (self.tracer_config.builtin != Some(TracerKind::NoTracer)),
    {
        !self.tracer_config.is_none()
    }

    /// Whether comments are emitted.
    pub fn emit_comments(&self) -> (r: bool)
        ensures
            r == self.flags.has(EMIT_COMMENTS),
    {
        self.flags.emit_comments()
    }

    /// Whether `#line` information is emitted.
    pub fn emit_line_info(&self) -> (r: bool)
        ensures
            r == self.flags.has(EMIT_LINE_INFO),
    {
        self.flags.emit_line_info()
    }

    /// Whether HTIF is enabled.
    pub fn htif_enabled(&self) -> (r: bool)
        ensures
            r == self.flags.has(HTIF_ENABLED),
    {
        self.flags.htif_enabled()
    }

    /// Whether HTIF prints guest output.
    pub fn htif_verbose(&self) -> (r: bool)
        ensures
            r == self.flags.has(HTIF_VERBOSE),
    {
        self.flags.htif_verbose()
    }

    /// Set the address translation mode.
    pub fn with_address_mode(self, mode: AddressMode) -> (r: Self)
        ensures
            r == (EmitConfig { address_mode: mode, ..self }),
    {
        let mut c = self;
        c.address_mode = mode;
        c
    }

    /// Set the tracer configuration.
    pub fn with_tracer(self, config: TracerConfig) -> (r: Self)
        ensures
            r == (EmitConfig { tracer_config: config, ..self }),
    {
        let mut c = self;
        c.tracer_config = config;
        c
    }

    /// Set the instret mode.
    pub fn with_instret_mode(self, mode: InstretMode) -> (r: Self)
        ensures
            r == (EmitConfig { instret_mode: mode, ..self }),
    {
        let mut c = self;
        c.instret_mode = mode;
        c
    }

    /// Enable or disable the HTIF tohost interface.
    pub fn with_tohost(self, enabled: bool) -> (r: Self)
        ensures
            r == (EmitConfig { flags: r.flags, ..self }),
            r.flags.has(HTIF_ENABLED) == enabled,
            r.flags.has(EMIT_COMMENTS) == self.flags.has(EMIT_COMMENTS),
            r.flags.has(EMIT_LINE_INFO) == self.flags.has(EMIT_LINE_INFO),
            r.flags.has(HTIF_VERBOSE) == self.flags.has(HTIF_VERBOSE),
    {
        let mut c = self;
        c.flags.set_htif_enabled(enabled);
        c
    }

    /// Enable or disable printing of guest output through HTIF.
    pub fn with_htif_verbose(self, verbose: bool) -> (r: Self)
        ensures
            r == (EmitConfig { flags: r.flags, ..self }),
            r.flags.has(HTIF_VERBOSE) == verbose,
            r.flags.has(EMIT_COMMENTS) == self.flags.has(EMIT_COMMENTS),
            r.flags.has(EMIT_LINE_INFO) == self.flags.has(EMIT_LINE_INFO),
            r.flags.has(HTIF_ENABLED) == self.flags.has(HTIF_ENABLED),
    {
        let mut c = self;
        c.flags.set_htif_verbose(verbose);
        c
    }

    /// Set the C compiler.
    pub fn with_compiler(self, compiler: Compiler) -> (r: Self)
        ensures
            r == (EmitConfig { compiler: compiler, ..self }),
    {
        let mut c = self;
        c.compiler = compiler;
        c
    }

    /// Enable or disable `#line` directives.
    pub fn with_line_info(self, enabled: bool) -> (r: Self)
        ensures
            r == (EmitConfig { flags: r.flags, ..self }),
            r.flags.has(EMIT_LINE_INFO) == enabled,
            r.flags.has(EMIT_COMMENTS) == self.flags.has(EMIT_COMMENTS),
            r.flags.has(HTIF_ENABLED) == self.flags.has(HTIF_ENABLED),
            r.flags.has(HTIF_VERBOSE) == self.flags.has(HTIF_VERBOSE),
    {
        let mut c = self;
        c.flags.set_emit_line_info(enabled);
        c
    }

    /// Set the syscall mode.
    pub fn with_syscall_mode(self, mode: SyscallMode) -> (r: Self)
        ensures
            r == (EmitConfig { syscall_mode: mode, ..self }),
    {
        let mut c = self;
        c.syscall_mode = mode;
        c
    }

    /// Use fixed addresses for state and memory; hot registers are chosen
    /// again for the host's slot budget, since state and memory no longer
    /// take argument slots.
    pub fn with_fixed_addresses(self, config: FixedAddressConfig) -> (r: Self)
        ensures
            r.fixed_addresses == Some(config),
            r.num_regs == self.num_regs,
            r.instret_mode == self.instret_mode,
            r.hot_regs@ == hot_choice(
                self.num_regs as int,
                if default_total_slots_spec(self.host) >= fixed_slots(self.instret_mode, true)
                    + self.tracer_config.passed_vars@.len() {
                    default_total_slots_spec(self.host) - fixed_slots(self.instret_mode, true)
                        - self.tracer_config.passed_vars@.len()
                } else {
                    0
                },
            ),
    {
        let mut c = self;
        c.fixed_addresses = Some(config);
        let slots = default_total_slots(c.host);
        c.init_hot_regs(slots);
        c
    }

    /// Enable perf mode (which also turns instret counting off).
    pub fn with_perf_mode(self, enabled: bool) -> (r: Self)
        ensures
            r == (EmitConfig {
                perf_mode: enabled,
                instret_mode: if enabled {
                    InstretMode::Off
                } else {
                    self.instret_mode
                },
                ..self
            }),
    {
        let mut c = self;
        c.perf_mode = enabled;
        if enabled {
            c.instret_mode = InstretMode::Off;
        }
        c
    }

    /// Enable or disable superblock formation.
    pub fn with_superblock(self, enabled: bool) -> (r: Self)
        ensures
            r == (EmitConfig { enable_superblock: enabled, ..self }),
    {
        let mut c = self;
        c.enable_superblock = enabled;
        c
    }

    /// Whether fixed addresses are used.
    pub fn has_fixed_addresses(&self) -> (r: bool)
        ensures
            r == self.fixed_addresses.is_some(),
    {
        self.fixed_addresses.is_some()
    }

    /// Bytes per register.
    pub fn reg_bytes(&self) -> (r: usize)
        ensures
            r == self.xlen.bits() / 8,
    {
        self.xlen.reg_bytes()
    }
}

/// Platform-specific default number of argument slots for the C backend.
pub open spec fn default_total_slots_spec(arch: HostArch) -> int {
    if arch == HostArch::Aarch64 {
        AARCH64_DEFAULT_TOTAL_SLOTS as int
    } else {
        X86_64_DEFAULT_TOTAL_SLOTS as int
    }
}

} // verus!
