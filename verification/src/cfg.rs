//! Control-flow graph construction: candidate targets from a linear scan
//! with constant tracking, then a worklist propagation of register values
//! that resolves indirect jumps, then basic-block leaders and the function
//! each block belongs to.

use std::collections::{HashMap, HashSet, VecDeque};
use vstd::prelude::*;

use crate::analyzer::{
    add_signed, binary_search_le, floor_value, instr_at, readonly_value, segment_of_pc, CodeView,
};
use crate::bits::wrap64;
use crate::bytes::{le_value, read_le};
use crate::elf::defs::{PF_W, PF_X};
use crate::config::Xlen;
use crate::collections::{
    map_keys, multimap_add, multimap_extend, set_elements, set_extend, sets_view, sorted_elements,
};
use crate::decoder::{extended_value, instr_meaning, CfgInstr, CfgInstrKind};
use crate::elf::image::{ElfImage, MemorySegment};
use crate::sorted::strictly_sorted;
use crate::value::{
    covers, join, lemma_covers_refl, lemma_covers_trans, lemma_join_absorbs_trans, lemma_merge_covers,
    possible, RegisterState, RegisterValue, MAX_VALUES,
};

verus! {

broadcast use vstd::std_specs::hash::group_hash_axioms;

/// Bound on worklist rounds, per byte of the code range.
pub const MAX_ITERATIONS_MULTIPLIER: usize = 20;

/// Control flow analysis result (all addresses are `u64`).
#[derive(Debug)]
pub struct CfgResult {
    /// Successors map: PC -> set of successor PCs.
    pub successors: HashMap<u64, HashSet<u64>>,
    /// Predecessors map: PC -> set of predecessor PCs.
    pub predecessors: HashMap<u64, HashSet<u64>>,
    /// Unresolved dynamic jumps (indirect jumps that could not be resolved).
    pub unresolved_jumps: HashSet<u64>,
    /// Basic block leaders (start of each block).
    pub leaders: HashSet<u64>,
    /// Call return map: callee -> set of return addresses.
    pub call_return_map: HashMap<u64, HashSet<u64>>,
    /// Block to function mapping: block PC -> function start PC.
    pub block_to_function: HashMap<u64, u64>,
    /// Function entry points.
    pub function_entries: HashSet<u64>,
    /// Internal branch targets (within functions).
    pub internal_targets: HashSet<u64>,
}

/// How the propagation of register values behind an analysis ended.
pub struct AnalysisStatus {
    /// Worklist rounds run.
    pub rounds: usize,
    /// Whether the propagation ran until nothing changed (it stops early
    /// when the round bound is reached).
    pub complete: bool,
    /// The register state reached at each pc that has one.
    pub states: HashMap<u64, RegisterState>,
}

impl Default for CfgResult {
    fn default() -> (r: Self)
        ensures
            r.successors@.dom().is_empty(),
            r.predecessors@.dom().is_empty(),
            r.unresolved_jumps@.is_empty(),
            r.leaders@.is_empty(),
            r.call_return_map@.dom().is_empty(),
            r.block_to_function@.dom().is_empty(),
            r.function_entries@.is_empty(),
            r.internal_targets@.is_empty(),
    {
        CfgResult {
            successors: HashMap::new(),
            predecessors: HashMap::new(),
            unresolved_jumps: HashSet::new(),
            leaders: HashSet::new(),
            call_return_map: HashMap::new(),
            block_to_function: HashMap::new(),
            function_entries: HashSet::new(),
            internal_targets: HashSet::new(),
        }
    }
}

/// The decoded instruction and its size at `pc`.
pub open spec fn decoded_at(segs: Seq<MemorySegment>, pc: u64) -> Option<(CfgInstr, u8)> {
    match instr_at(segs, pc) {
        Some((raw, size)) => Some((instr_meaning(raw, size), size)),
        None => None,
    }
}

/// The address after an instruction.
pub open spec fn next_pc(pc: u64, size: u8) -> u64 {
    (pc + size) as u64
}

/// The target of a PC-relative jump or branch.
pub open spec fn target_of(pc: u64, d: CfgInstr) -> u64 {
    wrap64(pc + d.imm) as u64
}

/// Successors of an instruction other than JALR, which need no register
/// values: the jump or branch target when it is code, and the next
/// instruction unless control never falls through (a JAL that does not link).
pub open spec fn direct_successors(base: u64, end: u64, pc: u64, size: u8, d: CfgInstr) -> Set<
    u64,
> {
    let t = target_of(pc, d);
    let tv = if base <= t < end {
        set![t]
    } else {
        Set::empty()
    };
    if d.kind == CfgInstrKind::Jal {
        if d.rd != 0 {
            tv.insert(next_pc(pc, size))
        } else {
            tv
        }
    } else if d.kind == CfgInstrKind::Branch {
        tv.insert(next_pc(pc, size))
    } else {
        set![next_pc(pc, size)]
    }
}

/// The JALR targets from a known base: each possible base value plus the
/// offset, with the low bit cleared, that is a code address.
pub open spec fn resolved_targets(base: u64, end: u64, vals: Seq<u64>, imm: i32) -> Set<u64> {
    Set::new(
        |t: u64|
            exists|k: int|
                0 <= k < vals.len() && t == (wrap64(vals[k] + imm) as u64) & !1u64 && base <= t
                    < end,
    )
}

/// Successors of a JALR at `pc` given the register state there: with a
/// known base, its code targets (and the next pc when it links); with an
/// unknown base, for a return the return addresses of the enclosing
/// function (else every return site), for an indirect call every function
/// entry and the next pc, for an indirect jump the enclosing function's
/// internal targets and every function entry.
pub open spec fn jalr_successors(
    base: u64,
    end: u64,
    pc: u64,
    size: u8,
    d: CfgInstr,
    state: RegisterState,
    function_entries: Set<u64>,
    return_sites: Set<u64>,
    sorted_function_entries: Seq<u64>,
    func_internal_targets: Map<u64, HashSet<u64>>,
    call_return_map: Map<u64, HashSet<u64>>,
) -> Set<u64> {
    let next = next_pc(pc, size);
    let f = floor_value(sorted_function_entries, pc);
    if !reg_ok(d.rs1) {
        Set::empty()
    } else {
        match state.reg(d.rs1 as int) {
            Some(vals) => {
                let ts = resolved_targets(base, end, vals, d.imm);
                if d.rd != 0 {
                    ts.insert(next)
                } else {
                    ts
                }
            },
            None => if d.rd == 0 && d.rs1 == 1 {
                if call_return_map.contains_key(f) {
                    call_return_map[f]@
                } else {
                    return_sites
                }
            } else if d.rd != 0 {
                function_entries.insert(next)
            } else {
                (if func_internal_targets.contains_key(f) {
                    func_internal_targets[f]@
                } else {
                    Set::empty()
                }).union(function_entries)
            },
        }
    }
}

/// Successors of a JALR at `pc` given its register state, over the
/// candidate targets as sets: with a known base, its code targets (and the
/// next pc when it links); with an unknown base, for a return the return
/// addresses of the enclosing function (the nearest function entry at or
/// below `pc`), else every return site; for an indirect call every function
/// entry and the next pc; for an indirect jump the internal targets of the
/// enclosing function and every function entry.
pub open spec fn indirect_successors(
    base: u64,
    end: u64,
    pc: u64,
    size: u8,
    d: CfgInstr,
    state: RegisterState,
    function_entries: Set<u64>,
    internal_targets: Set<u64>,
    return_sites: Set<u64>,
    call_return_map: Map<u64, HashSet<u64>>,
) -> Set<u64> {
    let next = next_pc(pc, size);
    let f = crate::analyzer::set_floor(function_entries, pc);
    if !reg_ok(d.rs1) {
        Set::empty()
    } else {
        match state.reg(d.rs1 as int) {
            Some(vals) => {
                let ts = resolved_targets(base, end, vals, d.imm);
                if d.rd != 0 {
                    ts.insert(next)
                } else {
                    ts
                }
            },
            None => if d.rd == 0 && d.rs1 == 1 {
                if call_return_map.contains_key(f) {
                    call_return_map[f]@
                } else {
                    return_sites
                }
            } else if d.rd != 0 {
                function_entries.insert(next)
            } else {
                Set::new(
                    |t: u64|
                        internal_targets.contains(t) && crate::analyzer::set_floor(
                            function_entries,
                            t,
                        ) == f,
                ).union(function_entries)
            },
        }
    }
}

/// Control flow analyzer.
pub struct CfgAnalyzer<'a> {
    code: CodeView<'a>,
    xlen: Xlen,
}

/// Whether an instruction transfers control (JAL, JALR, branches).
pub open spec fn transfers_control(d: CfgInstr) -> bool {
    d.kind == CfgInstrKind::Jal || d.kind == CfgInstrKind::Jalr || d.kind == CfgInstrKind::Branch
}

/// A register number an instruction names, usable as an index.
pub open spec fn reg_ok(r: i32) -> bool {
    0 <= r < 32
}

impl<'a> CfgAnalyzer<'a> {
    /// The memory segments of the analyzed image.
    pub closed spec fn segments(&self) -> Seq<MemorySegment> {
        self.code.image.memory_segments@
    }

    /// The entry point.
    pub closed spec fn entry(&self) -> u64 {
        self.code.entry_point
    }

    /// Start of the code range.
    pub closed spec fn base(&self) -> u64 {
        self.code.base_address
    }

    /// End of the code range (exclusive).
    pub closed spec fn end(&self) -> u64 {
        self.code.end_address
    }

    /// The code view is that of the image: its range spans the executable
    /// segments.
    pub closed spec fn well_formed(&self) -> bool {
        &&& self.code.entry_point == self.code.image.entry_point
        &&& self.code.base_address == crate::analyzer::exec_base(
            self.segments(),
            self.segments().len() as int,
        )
        &&& self.code.end_address == crate::analyzer::exec_end(
            self.segments(),
            self.segments().len() as int,
        )
    }

    /// Whether `pc` lies in the code range.
    pub open spec fn valid(&self, pc: u64) -> bool {
        self.base() <= pc < self.end()
    }

    /// What the analysis needs of the image: a code range (some executable
    /// segment), a round bound that fits a machine word, and no segment
    /// ending in the last bytes of the address space.
    pub open spec fn analyzable(&self) -> bool {
        &&& self.well_formed()
        &&& self.base() <= self.end()
        &&& (self.end() - self.base()) * MAX_ITERATIONS_MULTIPLIER < usize::MAX
        &&& forall|i: int|
            0 <= i < self.segments().len() ==> #[trigger] self.segments()[i].virtual_end <= u64::MAX
                - 8
    }

    /// Register width of the analyzed program.
    pub closed spec fn width(&self) -> Xlen {
        self.xlen
    }

    /// Create an analyzer for an ELF image of the given register width.
    pub fn new(image: &'a ElfImage, xlen: Xlen) -> (r: Self)
        ensures
            r.width() == xlen,
            r.well_formed(),
            r.segments() == image.memory_segments@,
            r.entry() == image.entry_point,
            r.base() == crate::analyzer::exec_base(
                image.memory_segments@,
                image.memory_segments@.len() as int,
            ),
            r.end() == crate::analyzer::exec_end(
                image.memory_segments@,
                image.memory_segments@.len() as int,
            ),
    {
        CfgAnalyzer { code: CodeView::from_image(image), xlen }
    }

    /// A PC with an instruction lies in a segment, so the next PC does not overflow.
    proof fn lemma_instr_pc_bound(&self, pc: u64)
        requires
            self.analyzable(),
            instr_at(self.segments(), pc) is Some,
        ensures
            pc + 8 <= u64::MAX,
    {
        let segs = self.segments();
        lemma_segment_of_pc_bound(segs, pc, segs.len() as int);
        let i = segment_of_pc(segs, pc, segs.len() as int)->0;
        assert(segs[i].virtual_end <= u64::MAX - 8);
    }

    /// Fetch and decode the instruction at `pc`.
    fn fetch(&self, pc: u64) -> (r: Option<(CfgInstr, u8)>)
        requires
            self.analyzable(),
        ensures
            r == decoded_at(self.segments(), pc),
            r is Some ==> pc + 8 <= u64::MAX,
            r matches Some((_, size)) ==> size == 2 || size == 4,
    {
        match self.code.read_instr(pc) {
            Some((raw, size)) => {
                proof {
                    self.lemma_instr_pc_bound(pc);
                    lemma_instr_size(self.segments(), pc);
                }
                Some((CfgInstr::decode(raw, size), size))
            },
            None => None,
        }
    }

    /// Successors of the instruction at `pc`. JAL, branches and other
    /// instructions have their direct successors; a JALR goes to the
    /// resolved targets of its base register, or, when those are unknown, to
    /// the return addresses of the enclosing function (returns), to every
    /// function entry (indirect calls), or to the function's internal targets
    /// and every function entry (indirect jumps).
    #[verifier::spinoff_prover]
    fn get_successors(
        &self,
        pc: u64,
        size: u8,
        decoded: &CfgInstr,
        state: &RegisterState,
        function_entries: &HashSet<u64>,
        return_sites: &HashSet<u64>,
        sorted_function_entries: &[u64],
        func_internal_targets: &HashMap<u64, HashSet<u64>>,
        call_return_map: &HashMap<u64, HashSet<u64>>,
    ) -> (r: HashSet<u64>)
        requires
            pc + size <= u64::MAX,
            state.wf(),
            crate::sorted::sorted(sorted_function_entries@),
        ensures
            decoded.kind != CfgInstrKind::Jalr ==> r@ == direct_successors(
                self.base(),
                self.end(),
                pc,
                size,
                *decoded,
            ),
            decoded.kind == CfgInstrKind::Jalr ==> r@ == jalr_successors(
                self.base(),
                self.end(),
                pc,
                size,
                *decoded,
                *state,
                function_entries@,
                return_sites@,
                sorted_function_entries@,
                func_internal_targets@,
                call_return_map@,
            ),
    {
        let mut result: HashSet<u64> = HashSet::new();
        let next = pc + size as u64;
        match decoded.kind {
            CfgInstrKind::Jal => {
                let target = add_signed(pc, decoded.imm);
                if self.code.is_valid_pc(target) {
                    result.insert(target);
                }
                if decoded.is_call() {
                    result.insert(next);
                }
                proof {
                    assert(result@ =~= direct_successors(self.base(), self.end(), pc, size, *decoded));
                }
            },
            CfgInstrKind::Jalr => {
                if decoded.rs1 >= 0 && decoded.rs1 < 32 {
                    let base = state.get(decoded.rs1 as usize);
                    match base.values() {
                        Some(values) => {
                            let ghost vals = values@;
                            let mut k: usize = 0;
                            while k < values.len()
                                invariant
                                    k <= values@.len(),
                                    vals == values@,
                                    forall|t: u64|
                                        #[trigger] result@.contains(t) <==> exists|j: int|
                                            0 <= j < k && t == (wrap64(vals[j] + decoded.imm) as u64)
                                                & !1u64 && self.base() <= t < self.end(),
                                decreases values.len() - k,
                            {
                                let target = add_signed(values[k], decoded.imm) & !1u64;
                                if self.code.is_valid_pc(target) {
                                    result.insert(target);
                                }
                                proof {
                                    assert forall|t: u64|
                                        #[trigger] result@.contains(t) <==> exists|j: int|
                                            0 <= j < k + 1 && t == (wrap64(vals[j] + decoded.imm)
                                                as u64) & !1u64 && self.base() <= t < self.end() by {
                                        if t == target && self.base() <= t < self.end() {
                                            assert(t == (wrap64(vals[k as int] + decoded.imm)
                                                as u64) & !1u64);
                                        }
                                    }
                                }
                                k += 1;
                            }
                            assert(result@ =~= resolved_targets(
                                self.base(),
                                self.end(),
                                vals,
                                decoded.imm,
                            ));
                            if decoded.is_call() {
                                result.insert(next);
                            }
                        },
                        None => {
                            if decoded.is_return() {
                                let func_start = binary_search_le(sorted_function_entries, pc);
                                match call_return_map.get(&func_start) {
                                    Some(ret_addrs) => set_extend(&mut result, ret_addrs),
                                    None => set_extend(&mut result, return_sites),
                                }
                            } else if decoded.is_call() {
                                set_extend(&mut result, function_entries);
                                result.insert(next);
                            } else if decoded.is_indirect_jump() {
                                let func_start = binary_search_le(sorted_function_entries, pc);
                                match func_internal_targets.get(&func_start) {
                                    Some(targets) => set_extend(&mut result, targets),
                                    None => {},
                                }
                                set_extend(&mut result, function_entries);
                            }
                        },
                    }
                }
                proof {
                    assert(result@ =~= jalr_successors(
                        self.base(),
                        self.end(),
                        pc,
                        size,
                        *decoded,
                        *state,
                        function_entries@,
                        return_sites@,
                        sorted_function_entries@,
                        func_internal_targets@,
                        call_return_map@,
                    ));
                }
            },
            CfgInstrKind::Branch => {
                result.insert(next);
                let target = add_signed(pc, decoded.imm);
                if self.code.is_valid_pc(target) {
                    result.insert(target);
                }
                proof {
                    assert(result@ =~= direct_successors(self.base(), self.end(), pc, size, *decoded));
                }
            },
            _ => {
                result.insert(next);
                proof {
                    assert(result@ =~= direct_successors(self.base(), self.end(), pc, size, *decoded));
                }
            },
        }
        result
    }
}

/// Whether the first `n` segments end at most at `bound`.
proof fn lemma_exec_end_bound(segs: Seq<MemorySegment>, n: int, bound: u64)
    requires
        n <= segs.len(),
        forall|i: int| 0 <= i < segs.len() ==> #[trigger] segs[i].virtual_end <= bound,
    ensures
        crate::analyzer::exec_end(segs, n) <= bound,
    decreases n,
{
    if n > 0 {
        lemma_exec_end_bound(segs, n - 1, bound);
    }
}

/// A static call (JAL that links) at `pc` to `callee` that returns to `ret`.
pub open spec fn static_call_to(segs: Seq<MemorySegment>, pc: u64, callee: u64, ret: u64) -> bool {
    &&& decoded_at(segs, pc) matches Some((d, size))
    &&& d.kind == CfgInstrKind::Jal
    &&& d.rd != 0
    &&& callee == target_of(pc, d)
    &&& ret == next_pc(pc, size)
}

/// The state of the linear scan: the pc, the known register constants,
/// and the function entries, internal targets and return sites found so
/// far.
pub type Scan = (u64, Seq<Option<u64>>, Set<u64>, Set<u64>, Set<u64>);

/// A register set to a value (no change for a register number out of range).
pub open spec fn set_reg(regs: Seq<Option<u64>>, rd: i32, v: Option<u64>) -> Seq<Option<u64>> {
    if reg_ok(rd) {
        regs.update(rd as int, v)
    } else {
        regs
    }
}

/// The register constants at the start of the scan: x0 is zero, the others
/// unknown.
pub open spec fn initial_regs() -> Seq<Option<u64>> {
    Seq::new(32, |i: int| if i == 0 { Some(0u64) } else { None })
}

impl<'a> CfgAnalyzer<'a> {
    /// A set with `t` added when it is a code address.
    pub open spec fn add_code(&self, s: Set<u64>, t: u64) -> Set<u64> {
        if self.valid(t) {
            s.insert(t)
        } else {
            s
        }
    }

    /// One instruction of the linear scan. An address that does not decode
    /// is skipped by 4 bytes. Otherwise constants are tracked through LUI,
    /// AUIPC, ADDI, ADD, moves, loads of read-only data and links, and the
    /// instruction adds what it shows:
    /// - a computed constant (ADDI, ADD) or a JALR target from a known base
    ///   that is a code address is a function entry;
    /// - a loaded constant that is a code address is an internal target;
    /// - a linking JAL adds its code target as a function entry, a JAL that
    ///   does not link adds it as an internal target;
    /// - a linking JAL or JALR adds the next pc as a return site;
    /// - a branch adds its code target and the next pc as internal targets.
    pub open spec fn scan_step(&self, st: Scan) -> Scan {
        let (pc, regs, fe, it, rs) = st;
        match decoded_at(self.segments(), pc) {
            None => ((pc + 4) as u64, regs, fe, it, rs),
            Some((d, size)) => {
                let e = self.scan_effect(pc, d, size, regs, fe, it, rs);
                (next_pc(pc, size), e.0, e.1, e.2, e.3)
            },
        }
    }

    /// What the instruction `d` of size `size` at `pc` does to the scan's
    /// constants and sets.
    pub open spec fn scan_effect(
        &self,
        pc: u64,
        d: CfgInstr,
        size: u8,
        regs: Seq<Option<u64>>,
        fe: Set<u64>,
        it: Set<u64>,
        rs: Set<u64>,
    ) -> (Seq<Option<u64>>, Set<u64>, Set<u64>, Set<u64>) {
                let next = next_pc(pc, size);
                let ok1 = reg_ok(d.rs1);
                if d.kind == CfgInstrKind::Lui {
                    (set_reg(regs, d.rd, Some(d.imm as u64)), fe, it, rs)
                } else if d.kind == CfgInstrKind::Auipc {
                    (set_reg(regs, d.rd, Some(target_of(pc, d))), fe, it, rs)
                } else if d.kind == CfgInstrKind::Addi {
                    if reg_ok(d.rd) && ok1 {
                        match regs[d.rs1 as int] {
                            Some(b) => {
                                let c = wrap64(b + d.imm) as u64;
                                (set_reg(regs, d.rd, Some(c)), self.add_code(fe, c), it, rs)
                            },
                            None => (set_reg(regs, d.rd, None), fe, it, rs),
                        }
                    } else {
                        (regs, fe, it, rs)
                    }
                } else if d.kind == CfgInstrKind::Add {
                    if reg_ok(d.rd) && ok1 && reg_ok(d.rs2) {
                        match (regs[d.rs1 as int], regs[d.rs2 as int]) {
                            (Some(l), Some(r)) => {
                                let c = vstd::wrapping::u64_specs::wrapping_add(l, r);
                                (set_reg(regs, d.rd, Some(c)), self.add_code(fe, c), it, rs)
                            },
                            _ => (set_reg(regs, d.rd, None), fe, it, rs),
                        }
                    } else {
                        (regs, fe, it, rs)
                    }
                } else if d.kind == CfgInstrKind::Move {
                    if reg_ok(d.rd) && ok1 {
                        (set_reg(regs, d.rd, regs[d.rs1 as int]), fe, it, rs)
                    } else {
                        (regs, fe, it, rs)
                    }
                } else if d.kind == CfgInstrKind::Load {
                    if reg_ok(d.rd) && ok1 {
                        match regs[d.rs1 as int] {
                            Some(b) => match readonly_value(
                                self.segments(),
                                wrap64(b + d.imm) as u64,
                                d.width as int,
                            ) {
                                Some(val) => {
                                    let x = extended_value(val, d.width, d.is_unsigned) as u64;
                                    (set_reg(regs, d.rd, Some(x)), fe, self.add_code(it, x), rs)
                                },
                                None => (set_reg(regs, d.rd, None), fe, it, rs),
                            },
                            None => (set_reg(regs, d.rd, None), fe, it, rs),
                        }
                    } else {
                        (regs, fe, it, rs)
                    }
                } else if d.kind == CfgInstrKind::Jal {
                    let t = target_of(pc, d);
                    if d.rd != 0 {
                        (set_reg(regs, d.rd, Some(next)), self.add_code(fe, t), it, rs.insert(next))
                    } else {
                        (set_reg(regs, d.rd, Some(next)), fe, self.add_code(it, t), rs)
                    }
                } else if d.kind == CfgInstrKind::Jalr {
                    let fe1 = if ok1 {
                        match regs[d.rs1 as int] {
                            Some(b) => self.add_code(fe, (wrap64(b + d.imm) as u64) & !1u64),
                            None => fe,
                        }
                    } else {
                        fe
                    };
                    let rs1 = if d.rd != 0 {
                        rs.insert(next)
                    } else {
                        rs
                    };
                    (set_reg(regs, d.rd, Some(next)), fe1, it, rs1)
                } else if d.kind == CfgInstrKind::Branch {
                    (regs, fe, self.add_code(it, target_of(pc, d)).insert(next), rs)
                } else {
                    (set_reg(regs, d.rd, None), fe, it, rs)
                }
    }

    /// The pc after the instruction at `pc` in the linear scan: the next
    /// instruction, or 4 bytes on when nothing decodes there.
    pub open spec fn pc_step(&self, pc: u64) -> u64 {
        match decoded_at(self.segments(), pc) {
            None => (pc + 4) as u64,
            Some((d, size)) => next_pc(pc, size),
        }
    }

    /// The pcs the linear scan visits from `pc` in at most `fuel` steps.
    pub open spec fn swept_from(&self, pc: u64, fuel: nat) -> Set<u64>
        decreases fuel,
    {
        if fuel == 0 || pc >= self.end() {
            Set::empty()
        } else {
            self.swept_from(self.pc_step(pc), (fuel - 1) as nat).insert(pc)
        }
    }

    /// The pcs the linear scan visits.
    pub open spec fn swept(&self) -> Set<u64> {
        self.swept_from(self.base(), (self.end() - self.base() + 1) as nat)
    }

    /// The scan's sets only grow.
    pub proof fn lemma_scan_grows(&self, st: Scan, fuel: nat)
        ensures
            st.2.subset_of(self.scan_from(st, fuel).2),
            st.3.subset_of(self.scan_from(st, fuel).3),
            st.4.subset_of(self.scan_from(st, fuel).4),
        decreases fuel,
    {
        if fuel > 0 && st.0 < self.end() {
            let nx = self.scan_step(st);
            self.lemma_scan_grows(nx, (fuel - 1) as nat);
            assert(st.2.subset_of(nx.2));
            assert(st.3.subset_of(nx.3));
            assert(st.4.subset_of(nx.4));
        }
    }

    /// What one instruction at a pc the scan visits adds, from any state of
    /// the scan: a linking JAL its code target as a function entry and the
    /// next pc as a return site, a JAL that does not link its code target as
    /// an internal target, a branch its code target and the next pc as
    /// internal targets, and a linking JALR the next pc as a return site.
    pub proof fn lemma_scan_collects(&self, st: Scan, fuel: nat, pc: u64)
        requires
            self.swept_from(st.0, fuel).contains(pc),
        ensures
            decoded_at(self.segments(), pc) matches Some((d, size)) ==> {
                let t = target_of(pc, d);
                let next = next_pc(pc, size);
                let r = self.scan_from(st, fuel);
                &&& d.kind == CfgInstrKind::Jal && d.rd != 0 ==> r.4.contains(next) && (self.valid(t)
                    ==> r.2.contains(t))
                &&& d.kind == CfgInstrKind::Jal && d.rd == 0 && self.valid(t) ==> r.3.contains(t)
                &&& d.kind == CfgInstrKind::Branch ==> r.3.contains(next) && (self.valid(t)
                    ==> r.3.contains(t))
                &&& d.kind == CfgInstrKind::Jalr && d.rd != 0 ==> r.4.contains(next)
            },
        decreases fuel,
    {
        let nx = self.scan_step(st);
        assert(nx.0 == self.pc_step(st.0));
        if pc == st.0 {
            self.lemma_scan_grows(nx, (fuel - 1) as nat);
        } else {
            self.lemma_scan_collects(nx, (fuel - 1) as nat, pc);
        }
    }

    /// The linear scan collects what each instruction it visits shows (see
    /// `lemma_scan_collects`): the law over the whole scan.
    pub proof fn law_scan_collects(&self, pc: u64)
        requires
            self.swept().contains(pc),
        ensures
            decoded_at(self.segments(), pc) matches Some((d, size)) ==> {
                let t = target_of(pc, d);
                let next = next_pc(pc, size);
                let r = self.scan();
                &&& d.kind == CfgInstrKind::Jal && d.rd != 0 ==> r.4.contains(next) && (self.valid(t)
                    ==> r.2.contains(t))
                &&& d.kind == CfgInstrKind::Jal && d.rd == 0 && self.valid(t) ==> r.3.contains(t)
                &&& d.kind == CfgInstrKind::Branch ==> r.3.contains(next) && (self.valid(t)
                    ==> r.3.contains(t))
                &&& d.kind == CfgInstrKind::Jalr && d.rd != 0 ==> r.4.contains(next)
            },
    {
        self.lemma_scan_collects(
            (self.base(), initial_regs(), set![self.entry()], self.ro_code_pointers(), Set::empty()),
            (self.end() - self.base() + 1) as nat,
            pc,
        );
    }

    /// The scan run from `st` for at most `fuel` instructions, stopping at
    /// the end of the code range.
    pub open spec fn scan_from(&self, st: Scan, fuel: nat) -> Scan
        decreases fuel,
    {
        if fuel == 0 || st.0 >= self.end() {
            st
        } else {
            self.scan_from(self.scan_step(st), (fuel - 1) as nat)
        }
    }

    /// The whole scan: from the start of the code range with only the entry
    /// point as a function entry and the read-only code pointers as
    /// internal targets. Each step advances the pc, so `end - base + 1`
    /// steps reach the end.
    pub open spec fn scan(&self) -> Scan {
        self.scan_from(
            (self.base(), initial_regs(), set![self.entry()], self.ro_code_pointers(), Set::empty()),
            (self.end() - self.base() + 1) as nat,
        )
    }
}

impl<'a> CfgAnalyzer<'a> {
    /// The code range ends well below the top of the address space.
    proof fn lemma_end_bound(&self)
        requires
            self.analyzable(),
        ensures
            self.end() <= u64::MAX - 8,
    {
        lemma_exec_end_bound(self.segments(), self.segments().len() as int, (u64::MAX - 8) as u64);
    }

    /// The size of a code pointer: the register width in bytes.
    spec fn ptr_bytes(&self) -> int {
        match self.xlen {
            Xlen::Rv64 => 8,
            Xlen::Rv32 => 4,
        }
    }

    /// `t` is the pointer-sized little-endian value at offset `o` (a
    /// multiple of the pointer size) of segment `k`, a read-only,
    /// non-executable segment, and lies in the code range.
    spec fn ro_pointer_at(&self, t: u64, k: int, o: int) -> bool {
        let ps = self.ptr_bytes();
        &&& 0 <= k < self.segments().len()
        &&& self.segments()[k].flags & PF_W == 0
        &&& self.segments()[k].flags & PF_X == 0
        &&& 0 <= o
        &&& o % ps == 0
        &&& o + ps <= self.segments()[k].data@.len()
        &&& le_value(self.segments()[k].data@.subrange(o, o + ps)) == t as nat
        &&& self.valid(t)
    }

    /// The code pointers found in the read-only, non-executable data.
    pub closed spec fn ro_code_pointers(&self) -> Set<u64> {
        Set::new(|t: u64| exists|k: int, o: int| #[trigger] self.ro_pointer_at(t, k, o))
    }

    /// Add every pointer-sized value of read-only, non-executable data that
    /// points into the code range.
    #[verifier::spinoff_prover]
    fn scan_ro_segments(&self, internal_targets: &mut HashSet<u64>)
        ensures
            final(internal_targets)@ == old(internal_targets)@ + self.ro_code_pointers(),
    {
        let ghost start = internal_targets@;
        let segs = &self.code.image.memory_segments;
        let ptr_size: usize = match self.xlen {
            Xlen::Rv64 => 8,
            Xlen::Rv32 => 4,
        };
        assert(ptr_size == self.ptr_bytes());
        let mut k: usize = 0;
        while k < segs.len()
            invariant
                k <= segs@.len(),
                segs@ == self.segments(),
                ptr_size == self.ptr_bytes(),
                ptr_size == 4 || ptr_size == 8,
                forall|t: u64|
                    #[trigger] internal_targets@.contains(t) <==> start.contains(t) || exists|
                        kk: int,
                        o: int,
                    | kk < k && #[trigger] self.ro_pointer_at(t, kk, o),
            decreases segs.len() - k,
        {
            let seg = &segs[k];
            if seg.is_readonly() && !seg.is_executable() {
                let data_size = seg.data.len();
                let mut offset: usize = 0;
                while offset <= data_size && ptr_size <= data_size - offset
                    invariant
                        k < segs@.len(),
                        segs@ == self.segments(),
                        *seg == segs@[k as int],
                        seg.flags & PF_W == 0,
                        seg.flags & PF_X == 0,
                        data_size == seg.data@.len(),
                        offset <= data_size,
                        ptr_size == self.ptr_bytes(),
                        ptr_size == 4 || ptr_size == 8,
                        offset % ptr_size == 0,
                        forall|t: u64|
                            #[trigger] internal_targets@.contains(t) <==> start.contains(t) || exists|
                                kk: int,
                                o: int,
                            | (kk < k || (kk == k && o < offset)) && #[trigger] self.ro_pointer_at(
                                t,
                                kk,
                                o,
                            ),
                    decreases data_size - offset,
                {
                    let val = read_le(seg.data.as_slice(), offset, ptr_size);
                    let ghost before = internal_targets@;
                    if self.code.is_valid_pc(val) {
                        internal_targets.insert(val);
                        assert(self.ro_pointer_at(val, k as int, offset as int));
                    }
                    proof {
                        assert forall|t: u64|
                            #[trigger] internal_targets@.contains(t) <==> start.contains(t) || exists|
                                kk: int,
                                o: int,
                            | (kk < k || (kk == k && o < offset + ptr_size))
                                && #[trigger] self.ro_pointer_at(t, kk, o) by {
                            if exists|kk: int, o: int|
                                (kk < k || (kk == k && o < offset + ptr_size))
                                    && #[trigger] self.ro_pointer_at(t, kk, o) {
                                let (kk, o) = choose|kk: int, o: int|
                                    (kk < k || (kk == k && o < offset + ptr_size))
                                        && #[trigger] self.ro_pointer_at(t, kk, o);
                                if kk == k && o >= offset {
                                    assert(o == offset);
                                    assert(t == val);
                                }
                            }
                        }
                    }
                    offset = offset + ptr_size;
                }
                proof {
                    assert forall|t: u64|
                        #[trigger] internal_targets@.contains(t) <==> start.contains(t) || exists|
                            kk: int,
                            o: int,
                        | kk < k + 1 && #[trigger] self.ro_pointer_at(t, kk, o) by {
                        if exists|kk: int, o: int| kk < k + 1 && #[trigger] self.ro_pointer_at(t, kk, o) {
                            let (kk, o) = choose|kk: int, o: int|
                                kk < k + 1 && #[trigger] self.ro_pointer_at(t, kk, o);
                            if kk == k {
                                assert(o < offset);
                            }
                        }
                    }
                }
            } else {
                proof {
                    assert forall|t: u64|
                        #[trigger] internal_targets@.contains(t) <==> start.contains(t) || exists|
                            kk: int,
                            o: int,
                        | kk < k + 1 && #[trigger] self.ro_pointer_at(t, kk, o) by {
                        if exists|kk: int, o: int| kk < k + 1 && #[trigger] self.ro_pointer_at(t, kk, o) {
                            let (kk, o) = choose|kk: int, o: int|
                                kk < k + 1 && #[trigger] self.ro_pointer_at(t, kk, o);
                            assert(kk != k);
                        }
                    }
                }
            }
            k += 1;
        }
        proof {
            assert forall|t: u64|
                #[trigger] internal_targets@.contains(t) == (start + self.ro_code_pointers()).contains(
                    t,
                ) by {
                if self.ro_code_pointers().contains(t) {
                    let (kk, o) = choose|kk: int, o: int| #[trigger] self.ro_pointer_at(t, kk, o);
                    assert(kk < k);
                }
            }
            assert(internal_targets@ =~= start + self.ro_code_pointers());
        }
    }

    /// Phase 1: a single pass over the code range that tracks constant
    /// register values to collect function entries (the entry point, call
    /// targets and computed code addresses), internal targets (branch and
    /// jump targets, fall-throughs of branches, code pointers in read-only
    /// data) and return sites.
    #[verifier::rlimit(40)]
    #[verifier::spinoff_prover]
    fn collect_potential_targets(&self) -> (r: (HashSet<u64>, HashSet<u64>, HashSet<u64>))
        requires
            self.analyzable(),
        ensures
            r.0@ == self.scan().2,
            r.1@ == self.scan().3,
            r.2@ == self.scan().4,
            r.0@.contains(self.entry()),
            forall|f: u64| r.0@.contains(f) ==> f == self.entry() || self.valid(f),
    {
        let mut function_entries: HashSet<u64> = HashSet::new();
        let mut internal_targets: HashSet<u64> = HashSet::new();
        let mut return_sites: HashSet<u64> = HashSet::new();
        function_entries.insert(self.code.entry_point);
        self.scan_ro_segments(&mut internal_targets);

        let mut regs: Vec<Option<u64>> = Vec::new();
        regs.push(Some(0));
        let mut k: usize = 1;
        while k < 32
            invariant
                1 <= k <= 32,
                regs@.len() == k,
                forall|i: int| 0 <= i < k ==> regs@[i] == initial_regs()[i],
            decreases 32 - k,
        {
            regs.push(None);
            k += 1;
        }

        proof {
            self.lemma_end_bound();
            assert(regs@ =~= initial_regs());
            assert(internal_targets@ =~= self.ro_code_pointers());
        }
        let ghost init: Scan = (
            self.base(),
            initial_regs(),
            set![self.entry()],
            self.ro_code_pointers(),
            Set::empty(),
        );
        let ghost fuel: nat = (self.end() - self.base() + 1) as nat;
        let ghost mut steps: nat = 0;
        assert(function_entries@ =~= set![self.entry()]);
        assert(return_sites@ =~= Set::<u64>::empty());
        let mut pc = self.code.base_address;
        while pc < self.code.end_address
            invariant
                self.analyzable(),
                self.end() <= u64::MAX - 8,
                regs@.len() == 32,
                function_entries@.contains(self.entry()),
                forall|f: u64| function_entries@.contains(f) ==> f == self.entry() || self.valid(f),
                self.base() <= pc,
                steps <= pc - self.base(),
                fuel == self.end() - self.base() + 1,
                self.scan() == self.scan_from(init, fuel),
                self.scan_from(init, fuel) == self.scan_from(
                    (pc, regs@, function_entries@, internal_targets@, return_sites@),
                    (fuel - steps) as nat,
                ),
            decreases self.end() + 8 - pc,
        {
            let ghost cur: Scan = (pc, regs@, function_entries@, internal_targets@, return_sites@);
            proof {
                assert(self.scan_from(cur, (fuel - steps) as nat) == self.scan_from(
                    self.scan_step(cur),
                    (fuel - steps - 1) as nat,
                ));
            }
            let (decoded, size) = match self.fetch(pc) {
                Some(x) => x,
                None => {
                    pc = pc + 4;
                    proof {
                        assert((pc, regs@, function_entries@, internal_targets@, return_sites@)
                            == self.scan_step(cur));
                        steps = steps + 1;
                    }
                    continue;
                },
            };
            let next = pc + size as u64;
            self.scan_instr(
                pc,
                &decoded,
                size,
                &mut regs,
                &mut function_entries,
                &mut internal_targets,
                &mut return_sites,
            );
            pc = next;
            proof {
                assert((pc, regs@, function_entries@, internal_targets@, return_sites@)
                    =~= self.scan_step(cur));
                steps = steps + 1;
            }
        }
        (function_entries, internal_targets, return_sites)
    }

    /// What one decoded instruction of the linear scan does to the tracked
    /// constants and the collected sets.
    #[verifier::rlimit(60)]
    #[verifier::spinoff_prover]
    fn scan_instr(
        &self,
        pc: u64,
        decoded: &CfgInstr,
        size: u8,
        regs: &mut Vec<Option<u64>>,
        function_entries: &mut HashSet<u64>,
        internal_targets: &mut HashSet<u64>,
        return_sites: &mut HashSet<u64>,
    )
        requires
            self.analyzable(),
            decoded_at(self.segments(), pc) == Some((*decoded, size)),
            pc + 8 <= u64::MAX,
            size == 2 || size == 4,
            old(regs)@.len() == 32,
        ensures
            (final(regs)@, final(function_entries)@, final(internal_targets)@, final(return_sites)@)
                == self.scan_effect(
                pc,
                *decoded,
                size,
                old(regs)@,
                old(function_entries)@,
                old(internal_targets)@,
                old(return_sites)@,
            ),
            final(regs)@.len() == 32,
            forall|f: u64|
                final(function_entries)@.contains(f) ==> old(function_entries)@.contains(f)
                    || self.valid(f),
    {
        let next = pc + size as u64;
        let rd = decoded.rd;
        let rs1 = decoded.rs1;
        let rs2 = decoded.rs2;
        match decoded.kind {
            CfgInstrKind::Lui => {
                if rd >= 0 && rd < 32 {
                    regs.set(rd as usize, Some(#[verifier::truncate] (decoded.imm as u64)));
                }
            },
            CfgInstrKind::Auipc => {
                if rd >= 0 && rd < 32 {
                    regs.set(rd as usize, Some(add_signed(pc, decoded.imm)));
                }
            },
            CfgInstrKind::Addi => {
                if rd >= 0 && rd < 32 && rs1 >= 0 && rs1 < 32 {
                    match regs[rs1 as usize] {
                        Some(base) => {
                            let computed = add_signed(base, decoded.imm);
                            regs.set(rd as usize, Some(computed));
                            if self.code.is_valid_pc(computed) {
                                function_entries.insert(computed);
                            }
                        },
                        None => {
                            regs.set(rd as usize, None);
                        },
                    }
                }
            },
            CfgInstrKind::Add => {
                if rd >= 0 && rd < 32 && rs1 >= 0 && rs1 < 32 && rs2 >= 0 && rs2 < 32 {
                    match (regs[rs1 as usize], regs[rs2 as usize]) {
                        (Some(l), Some(r)) => {
                            let computed = l.wrapping_add(r);
                            regs.set(rd as usize, Some(computed));
                            if self.code.is_valid_pc(computed) {
                                function_entries.insert(computed);
                            }
                        },
                        _ => {
                            regs.set(rd as usize, None);
                        },
                    }
                }
            },
            CfgInstrKind::Move => {
                if rd >= 0 && rd < 32 && rs1 >= 0 && rs1 < 32 {
                    let v = regs[rs1 as usize];
                    regs.set(rd as usize, v);
                }
            },
            CfgInstrKind::Load => {
                if rd >= 0 && rd < 32 && rs1 >= 0 && rs1 < 32 {
                    match regs[rs1 as usize] {
                        Some(base) => {
                            let addr = add_signed(base, decoded.imm);
                            match self.code.read_readonly_value(addr, decoded.width as usize) {
                                Some(val) => {
                                    let extended = CfgInstr::extend_loaded_value(
                                        val,
                                        decoded.width,
                                        decoded.is_unsigned,
                                    );
                                    regs.set(rd as usize, Some(extended));
                                    if self.code.is_valid_pc(extended) {
                                        internal_targets.insert(extended);
                                    }
                                },
                                None => {
                                    regs.set(rd as usize, None);
                                },
                            }
                        },
                        None => {
                            regs.set(rd as usize, None);
                        },
                    }
                }
            },
            CfgInstrKind::Jal => {
                let target = add_signed(pc, decoded.imm);
                if decoded.is_call() {
                    if self.code.is_valid_pc(target) {
                        function_entries.insert(target);
                    }
                    return_sites.insert(next);
                } else {
                    if self.code.is_valid_pc(target) {
                        internal_targets.insert(target);
                    }
                }
                if rd >= 0 && rd < 32 {
                    regs.set(rd as usize, Some(next));
                }
            },
            CfgInstrKind::Jalr => {
                if rs1 >= 0 && rs1 < 32 {
                    match regs[rs1 as usize] {
                        Some(base) => {
                            let target = add_signed(base, decoded.imm) & !1u64;
                            if self.code.is_valid_pc(target) {
                                function_entries.insert(target);
                            }
                        },
                        None => {},
                    }
                }
                if decoded.is_call() {
                    return_sites.insert(next);
                }
                if rd >= 0 && rd < 32 {
                    regs.set(rd as usize, Some(next));
                }
            },
            CfgInstrKind::Branch => {
                let target = add_signed(pc, decoded.imm);
                if self.code.is_valid_pc(target) {
                    internal_targets.insert(target);
                }
                internal_targets.insert(next);
            },
            _ => {
                if rd >= 0 && rd < 32 {
                    regs.set(rd as usize, None);
                }
            },
        }
    }

    /// Map each statically called function to the addresses its calls return to.
    #[verifier::rlimit(80)]
    #[verifier::spinoff_prover]
    fn build_call_return_map(&self, function_entries: &HashSet<u64>) -> (r: HashMap<
        u64,
        HashSet<u64>,
    >)
        requires
            self.analyzable(),
        ensures
            forall|callee: u64|
                #[trigger] r@.contains_key(callee) ==> function_entries@.contains(callee)
                    && self.valid(callee),
            forall|callee: u64, ret: u64|
                r@.contains_key(callee) && #[trigger] r@[callee]@.contains(ret) ==> exists|pc: u64|
                    #[trigger] static_call_to(self.segments(), pc, callee, ret),
            forall|pc: u64, callee: u64, ret: u64|
                self.swept().contains(pc) && #[trigger] static_call_to(self.segments(), pc, callee, ret)
                    && function_entries@.contains(callee) && self.valid(callee) ==> r@.contains_key(
                    callee,
                ) && r@[callee]@.contains(ret),
    {
        let mut call_return_map: HashMap<u64, HashSet<u64>> = HashMap::new();
        proof {
            self.lemma_end_bound();
        }
        let ghost fuel: nat = (self.end() - self.base() + 1) as nat;
        let ghost mut steps: nat = 0;
        let ghost mut visited: Set<u64> = Set::empty();
        let mut pc = self.code.base_address;
        assert(self.swept() =~= visited + self.swept_from(pc, fuel));
        while pc < self.code.end_address
            invariant
                self.analyzable(),
                self.end() <= u64::MAX - 8,
                self.base() <= pc,
                steps <= pc - self.base(),
                fuel == self.end() - self.base() + 1,
                self.swept() == visited + self.swept_from(pc, (fuel - steps) as nat),
                forall|q: u64, callee: u64, ret: u64|
                    visited.contains(q) && #[trigger] static_call_to(self.segments(), q, callee, ret)
                        && function_entries@.contains(callee) && self.valid(callee)
                        ==> call_return_map@.contains_key(callee) && call_return_map@[callee]@.contains(
                        ret,
                    ),
                forall|callee: u64|
                    #[trigger] call_return_map@.contains_key(callee) ==> function_entries@.contains(
                        callee,
                    ) && self.valid(callee),
                forall|callee: u64, ret: u64|
                    call_return_map@.contains_key(callee) && #[trigger] call_return_map@[callee]@.contains(
                        ret,
                    ) ==> exists|pc: u64| #[trigger] static_call_to(self.segments(), pc, callee, ret),
            decreases self.end() + 8 - pc,
        {
            let ghost k: nat = (fuel - steps) as nat;
            let ghost pc0 = pc;
            let ghost m0 = call_return_map@;
            proof {
                assert(self.swept_from(pc, k) == self.swept_from(self.pc_step(pc), (k - 1) as nat).insert(pc));
            }
            let (decoded, size) = match self.fetch(pc) {
                Some(x) => x,
                None => {
                    pc = pc + 4;
                    proof {
                        assert(self.swept() =~= visited.insert(pc0) + self.swept_from(pc, (k - 1) as nat));
                        visited = visited.insert(pc0);
                        steps = steps + 1;
                    }
                    continue;
                },
            };
            if decoded.is_static_call() {
                let callee = add_signed(pc, decoded.imm);
                if self.code.is_valid_pc(callee) && function_entries.contains(&callee) {
                    let return_addr = pc + size as u64;
                    let ghost before = call_return_map@;
                    multimap_add(&mut call_return_map, callee, return_addr);
                    proof {
                        assert(static_call_to(self.segments(), pc, callee, return_addr));
                        assert forall|c: u64| #[trigger] call_return_map@.contains_key(c) implies function_entries@.contains(c)
                            && self.valid(c) by {
                            assert(sets_view(call_return_map@).contains_key(c));
                            if c != callee {
                                assert(sets_view(before).contains_key(c));
                            }
                        }
                        assert forall|c: u64, ret: u64|
                            call_return_map@.contains_key(c) && #[trigger] call_return_map@[c]@.contains(
                                ret,
                            ) implies exists|p: u64| #[trigger] static_call_to(self.segments(), p, c, ret) by {
                            assert(sets_view(call_return_map@).contains_key(c));
                            assert(sets_view(call_return_map@)[c] == call_return_map@[c]@);
                            if c != callee {
                                assert(sets_view(before).contains_key(c));
                                assert(sets_view(before)[c] == before[c]@);
                            } else if ret != return_addr {
                                assert(before.contains_key(c));
                                assert(sets_view(before)[c] == before[c]@);
                                assert(before[c]@.contains(ret));
                            }
                        }
                    }
                }
            }
            proof {
                assert forall|c: u64| m0.contains_key(c) implies call_return_map@.contains_key(c)
                    && m0[c]@.subset_of(call_return_map@[c]@) by {
                    assert(sets_view(m0).contains_key(c));
                    assert(sets_view(call_return_map@).contains_key(c));
                    assert(sets_view(m0)[c] == m0[c]@);
                    assert(sets_view(call_return_map@)[c] == call_return_map@[c]@);
                }
                assert forall|q: u64, callee: u64, ret: u64|
                    visited.insert(pc0).contains(q) && #[trigger] static_call_to(
                        self.segments(),
                        q,
                        callee,
                        ret,
                    ) && function_entries@.contains(callee) && self.valid(callee)
                        implies call_return_map@.contains_key(callee)
                        && call_return_map@[callee]@.contains(ret) by {
                    if q == pc0 {
                        assert(sets_view(call_return_map@).contains_key(callee));
                        assert(sets_view(call_return_map@)[callee] == call_return_map@[callee]@);
                    } else {
                        assert(m0.contains_key(callee) && m0[callee]@.contains(ret));
                    }
                }
            }
            pc = pc + size as u64;
            proof {
                assert(self.swept() =~= visited.insert(pc0) + self.swept_from(pc, (k - 1) as nat));
                visited = visited.insert(pc0);
                steps = steps + 1;
            }
        }
        proof {
            assert(self.swept_from(pc, (fuel - steps) as nat) =~= Set::empty());
        }
        call_return_map
    }

    /// Group internal targets by the function that contains them (the
    /// nearest function entry at or below the target).
    fn group_by_function(&self, sorted_functions: &[u64], targets: &HashSet<u64>) -> (r: HashMap<
        u64,
        HashSet<u64>,
    >)
        requires
            crate::sorted::sorted(sorted_functions@),
        ensures
            forall|t: u64|
                targets@.contains(t) ==> #[trigger] r@.contains_key(
                    floor_value(sorted_functions@, t),
                ),
            forall|f: u64, t: u64|
                r@.contains_key(f) ==> (#[trigger] r@[f]@.contains(t) <==> targets@.contains(t)
                    && floor_value(sorted_functions@, t) == f),
    {
        let mut result: HashMap<u64, HashSet<u64>> = HashMap::new();
        let elems = set_elements(targets);
        let mut k: usize = 0;
        while k < elems.len()
            invariant
                crate::sorted::sorted(sorted_functions@),
                k <= elems@.len(),
                elems@.to_set() == targets@,
                forall|i: int|
                    0 <= i < k ==> #[trigger] result@.contains_key(
                        floor_value(sorted_functions@, elems@[i]),
                    ),
                forall|f: u64, t: u64|
                    result@.contains_key(f) ==> (#[trigger] result@[f]@.contains(t) <==> elems@.take(
                        k as int,
                    ).contains(t) && floor_value(sorted_functions@, t) == f),
            decreases elems.len() - k,
        {
            let target = elems[k];
            let func = binary_search_le(sorted_functions, target);
            let ghost before = result@;
            multimap_add(&mut result, func, target);
            proof {
                broadcast use vstd::seq_lib::group_seq_properties;
                assert(elems@.take(k + 1) =~= elems@.take(k as int).push(target));
                assert forall|i: int| 0 <= i < k + 1 implies #[trigger] result@.contains_key(
                    floor_value(sorted_functions@, elems@[i]),
                ) by {
                    assert(sets_view(result@).contains_key(floor_value(sorted_functions@, elems@[i])));
                    if i < k {
                        assert(before.contains_key(floor_value(sorted_functions@, elems@[i])));
                        assert(sets_view(before).contains_key(floor_value(sorted_functions@, elems@[i])));
                    }
                }
                assert forall|f: u64, t: u64| result@.contains_key(f) implies (#[trigger] result@[f]@.contains(
                    t,
                ) <==> elems@.take(k + 1).contains(t) && floor_value(sorted_functions@, t) == f) by {
                    assert(sets_view(result@).contains_key(f));
                    assert(sets_view(result@)[f] == result@[f]@);
                    if f != func {
                        assert(sets_view(before).contains_key(f));
                        assert(sets_view(before)[f] == before[f]@);
                    } else if before.contains_key(f) {
                        assert(sets_view(before)[f] == before[f]@);
                    } else {
                        if elems@.take(k as int).contains(t) && floor_value(sorted_functions@, t) == f {
                            let i = choose|i: int| 0 <= i < k && elems@.take(k as int)[i] == t;
                            assert(elems@[i] == t);
                        }
                    }
                }
            }
            k += 1;
        }
        proof {
            assert(elems@.take(k as int) =~= elems@);
            assert forall|t: u64| targets@.contains(t) implies #[trigger] result@.contains_key(
                floor_value(sorted_functions@, t),
            ) by {
                let i = choose|i: int| 0 <= i < elems@.len() && elems@[i] == t;
            }
        }
        result
    }

    /// What a recorded pc adds to the basic-block leaders: for an instruction
    /// that transfers control, its successors and the instruction after it
    /// when that is code; nothing for any other.
    pub open spec fn flow_leaders_at(&self, succ: Map<u64, HashSet<u64>>, pc: u64) -> Set<u64> {
        match decoded_at(self.segments(), pc) {
            Some((d, size)) => if transfers_control(d) {
                let next = next_pc(pc, size);
                if self.valid(next) {
                    succ[pc]@.insert(next)
                } else {
                    succ[pc]@
                }
            } else {
                Set::empty()
            },
            None => Set::empty(),
        }
    }

    /// The basic-block leaders of a successor map: the entry point, the
    /// function entries, internal targets and return sites, and what each
    /// recorded pc adds (`flow_leaders_at`).
    pub open spec fn leaders_of(
        &self,
        succ: Map<u64, HashSet<u64>>,
        function_entries: Set<u64>,
        internal_targets: Set<u64>,
        return_sites: Set<u64>,
    ) -> Set<u64> {
        Set::new(
            |t: u64|
                t == self.entry() || function_entries.contains(t) || internal_targets.contains(t)
                    || return_sites.contains(t) || exists|pc: u64|
                    succ.contains_key(pc) && #[trigger] self.flow_leaders_at(succ, pc).contains(t),
        )
    }

    /// Every recorded pc has passed its register state on: each successor
    /// that state gives (`successors_given`) has a state that covers the
    /// state after the instruction (`covers_step`).
    #[verifier::opaque]
    pub open spec fn states_passed_on(
        &self,
        succ: Map<u64, HashSet<u64>>,
        states: Map<u64, RegisterState>,
        function_entries: Set<u64>,
        internal_targets: Set<u64>,
        return_sites: Set<u64>,
        call_return_map: Map<u64, HashSet<u64>>,
    ) -> bool {
        forall|pc: u64|
            #[trigger] succ.contains_key(pc) ==> match decoded_at(self.segments(), pc) {
                Some((d, size)) => forall|t: u64|
                    #[trigger] successors_given(
                        self.base(),
                        self.end(),
                        pc,
                        size,
                        d,
                        states[pc],
                        function_entries,
                        internal_targets,
                        return_sites,
                        call_return_map,
                    ).contains(t) ==> states.contains_key(t) && covers_step(
                        self.segments(),
                        pc,
                        size,
                        d,
                        states[pc],
                        states[t],
                    ),
                None => true,
            }
    }

    /// Every successor of a recorded JALR is one that `indirect_successors`
    /// gives from some well-formed state that the state at that pc covers.
    #[verifier::opaque]
    pub open spec fn jalr_successors_within(
        &self,
        succ: Map<u64, HashSet<u64>>,
        states: Map<u64, RegisterState>,
        function_entries: Set<u64>,
        internal_targets: Set<u64>,
        return_sites: Set<u64>,
        call_return_map: Map<u64, HashSet<u64>>,
    ) -> bool {
        forall|pc: u64, t: u64|
            succ.contains_key(pc) && #[trigger] succ[pc]@.contains(t) ==> match decoded_at(
                self.segments(),
                pc,
            ) {
                Some((d, size)) => d.kind == CfgInstrKind::Jalr ==> exists|s: RegisterState|
                    s.wf() && covers(states[pc], s) && #[trigger] indirect_successors(
                        self.base(),
                        self.end(),
                        pc,
                        size,
                        d,
                        s,
                        function_entries,
                        internal_targets,
                        return_sites,
                        call_return_map,
                    ).contains(t),
                None => true,
            }
    }

    #[verifier::rlimit(40)]
    /// Basic block leaders: the entry point, function entries, internal
    /// targets and return sites, plus the successors of every control-flow
    /// instruction and the instruction after it, and nothing else.
    fn compute_leaders(
        &self,
        successors: &HashMap<u64, HashSet<u64>>,
        function_entries: &HashSet<u64>,
        internal_targets: &HashSet<u64>,
        return_sites: &HashSet<u64>,
    ) -> (r: HashSet<u64>)
        requires
            self.analyzable(),
        ensures
            r@ == self.leaders_of(
                successors@,
                function_entries@,
                internal_targets@,
                return_sites@,
            ),
    {
        let mut leaders: HashSet<u64> = HashSet::new();
        leaders.insert(self.code.entry_point);
        set_extend(&mut leaders, function_entries);
        set_extend(&mut leaders, internal_targets);
        set_extend(&mut leaders, return_sites);
        let ghost base = set![self.entry()].union(function_entries@).union(internal_targets@).union(
            return_sites@,
        );
        proof {
            assert(leaders@ =~= base);
        }
        let pcs = map_keys(successors);
        let mut k: usize = 0;
        while k < pcs.len()
            invariant
                self.analyzable(),
                k <= pcs@.len(),
                pcs@.to_set() == successors@.dom(),
                base == set![self.entry()].union(function_entries@).union(internal_targets@).union(
                    return_sites@,
                ),
                forall|t: u64|
                    #[trigger] leaders@.contains(t) <==> base.contains(t) || exists|i: int|
                        0 <= i < k && #[trigger] self.flow_leaders_at(successors@, pcs@[i]).contains(
                            t,
                        ),
            decreases pcs.len() - k,
        {
            let pc = pcs[k];
            let ghost before = leaders@;
            match self.fetch(pc) {
                Some((decoded, size)) => {
                    if decoded.is_control_flow() {
                        assert(successors@.contains_key(pc)) by {
                            assert(pcs@.to_set().contains(pc));
                        }
                        match successors.get(&pc) {
                            Some(succs) => set_extend(&mut leaders, succs),
                            None => {},
                        }
                        let next_pc = pc + size as u64;
                        if self.code.is_valid_pc(next_pc) {
                            leaders.insert(next_pc);
                        }
                    }
                },
                None => {},
            }
            proof {
                assert(leaders@ =~= before.union(self.flow_leaders_at(successors@, pc)));
                assert forall|t: u64|
                    #[trigger] leaders@.contains(t) <==> base.contains(t) || exists|i: int|
                        0 <= i < k + 1 && #[trigger] self.flow_leaders_at(
                            successors@,
                            pcs@[i],
                        ).contains(t) by {
                    if self.flow_leaders_at(successors@, pc).contains(t) {
                        assert(pcs@[k as int] == pc);
                    }
                    if exists|i: int|
                        0 <= i < k + 1 && #[trigger] self.flow_leaders_at(
                            successors@,
                            pcs@[i],
                        ).contains(t) {
                        let i = choose|i: int|
                            0 <= i < k + 1 && #[trigger] self.flow_leaders_at(
                                successors@,
                                pcs@[i],
                            ).contains(t);
                        if i < k {
                            assert(before.contains(t));
                        }
                    }
                }
            }
            k += 1;
        }
        proof {
            let target = self.leaders_of(
                successors@,
                function_entries@,
                internal_targets@,
                return_sites@,
            );
            assert forall|t: u64| leaders@.contains(t) <==> #[trigger] target.contains(t) by {
                if exists|i: int|
                    0 <= i < k && #[trigger] self.flow_leaders_at(successors@, pcs@[i]).contains(t) {
                    let i = choose|i: int|
                        0 <= i < k && #[trigger] self.flow_leaders_at(successors@, pcs@[i]).contains(
                            t,
                        );
                    assert(pcs@.to_set().contains(pcs@[i]));
                    assert(successors@.contains_key(pcs@[i]));
                }
                if exists|pc: u64|
                    successors@.contains_key(pc) && #[trigger] self.flow_leaders_at(
                        successors@,
                        pc,
                    ).contains(t) {
                    let pc = choose|pc: u64|
                        successors@.contains_key(pc) && #[trigger] self.flow_leaders_at(
                            successors@,
                            pc,
                        ).contains(t);
                    assert(pcs@.to_set().contains(pc));
                    let i = choose|i: int| 0 <= i < pcs@.len() && pcs@[i] == pc;
                    assert(self.flow_leaders_at(successors@, pcs@[i]).contains(t));
                }
            }
            assert(leaders@ =~= target);
        }
        leaders
    }

    /// Map each leader to its containing function, where there is one.
    fn map_blocks_to_functions(&self, leaders: &HashSet<u64>, sorted_functions: &[u64]) -> (r:
        HashMap<u64, u64>)
        requires
            crate::sorted::sorted(sorted_functions@),
        ensures
            forall|l: u64|
                #[trigger] r@.contains_key(l) <==> leaders@.contains(l) && floor_value(
                    sorted_functions@,
                    l,
                ) != 0,
            forall|l: u64| #[trigger] r@.contains_key(l) ==> r@[l] == floor_value(sorted_functions@, l),
    {
        let mut result: HashMap<u64, u64> = HashMap::new();
        let elems = set_elements(leaders);
        let mut k: usize = 0;
        while k < elems.len()
            invariant
                crate::sorted::sorted(sorted_functions@),
                k <= elems@.len(),
                elems@.to_set() == leaders@,
                forall|l: u64|
                    #[trigger] result@.contains_key(l) <==> elems@.take(k as int).contains(l)
                        && floor_value(sorted_functions@, l) != 0,
                forall|l: u64|
                    #[trigger] result@.contains_key(l) ==> result@[l] == floor_value(
                        sorted_functions@,
                        l,
                    ),
            decreases elems.len() - k,
        {
            let leader = elems[k];
            let func = binary_search_le(sorted_functions, leader);
            if func != 0 {
                result.insert(leader, func);
            }
            proof {
                broadcast use vstd::seq_lib::group_seq_properties;
                assert(elems@.take(k + 1) =~= elems@.take(k as int).push(leader));
            }
            k += 1;
        }
        proof {
            assert(elems@.take(k as int) =~= elems@);
        }
        result
    }
}

/// Every recorded instruction decodes, and instructions other than JALR have
/// exactly their direct successors.
pub open spec fn successors_ok(
    segs: Seq<MemorySegment>,
    base: u64,
    end: u64,
    m: Map<u64, HashSet<u64>>,
) -> bool {
    forall|pc: u64|
        #[trigger] m.contains_key(pc) ==> match decoded_at(segs, pc) {
            Some((d, size)) => d.kind != CfgInstrKind::Jalr ==> m[pc]@ == direct_successors(
                base,
                end,
                pc,
                size,
                d,
            ),
            None => false,
        }
}

/// Every recorded JALR that links (through a register the instruction can
/// name) has the instruction after it among its successors.
pub open spec fn links_ok(segs: Seq<MemorySegment>, succ: Map<u64, HashSet<u64>>) -> bool {
    forall|pc: u64|
        #[trigger] succ.contains_key(pc) ==> match decoded_at(segs, pc) {
            Some((d, size)) => d.kind == CfgInstrKind::Jalr && d.rd != 0 && reg_ok(d.rs1)
                ==> succ[pc]@.contains(next_pc(pc, size)),
            None => true,
        }
}

/// Adding successors at `pc` keeps every JALR that links pointing at the
/// instruction after it, when the added ones do so for `pc`.
#[verifier::spinoff_prover]
proof fn lemma_links_extend(
    segs: Seq<MemorySegment>,
    before: Map<u64, HashSet<u64>>,
    after: Map<u64, HashSet<u64>>,
    pc: u64,
    got: Set<u64>,
)
    requires
        sets_view(after) == sets_view(before).insert(
            pc,
            if before.contains_key(pc) {
                before[pc]@.union(got)
            } else {
                got
            },
        ),
    ensures
        links_ok(segs, before) && (match decoded_at(segs, pc) {
            Some((d, size)) => d.kind == CfgInstrKind::Jalr && d.rd != 0 && reg_ok(d.rs1)
                ==> got.contains(next_pc(pc, size)),
            None => true,
        }) ==> links_ok(segs, after),
{
    if links_ok(segs, before) && (match decoded_at(segs, pc) {
        Some((d, size)) => d.kind == CfgInstrKind::Jalr && d.rd != 0 && reg_ok(d.rs1)
            ==> got.contains(next_pc(pc, size)),
        None => true,
    }) {
        assert forall|p: u64| #[trigger] after.contains_key(p) implies match decoded_at(segs, p) {
            Some((d, size)) => d.kind == CfgInstrKind::Jalr && d.rd != 0 && reg_ok(d.rs1)
                ==> after[p]@.contains(next_pc(p, size)),
            None => true,
        } by {
            assert(sets_view(after).contains_key(p));
            assert(sets_view(after)[p] == after[p]@);
            if p != pc {
                assert(sets_view(before).contains_key(p));
                assert(sets_view(before)[p] == before[p]@);
            } else if before.contains_key(pc) {
                assert(sets_view(before)[pc] == before[pc]@);
            }
        }
    }
}

/// Two register states that track the same values.
pub open spec fn same_regs(a: RegisterState, b: RegisterState) -> bool {
    forall|i: int| #[trigger] a.reg(i) == b.reg(i)
}

/// Every pc with recorded successors has a register state.
#[verifier::opaque]
pub open spec fn recorded_have_states(succ: Map<u64, HashSet<u64>>, states: Map<u64, RegisterState>) -> bool {
    forall|q: u64| #[trigger] succ.contains_key(q) ==> states.contains_key(q)
}

/// Every recorded JALR that is not queued has among its successors those
/// that its current register state gives (`jalr_successors`, over the maps
/// the analysis was given).
#[verifier::opaque]
pub open spec fn jalr_settled(
    segs: Seq<MemorySegment>,
    base: u64,
    end: u64,
    succ: Map<u64, HashSet<u64>>,
    states: Map<u64, RegisterState>,
    queued: Set<u64>,
    function_entries: Set<u64>,
    return_sites: Set<u64>,
    sorted_function_entries: Seq<u64>,
    func_internal_targets: Map<u64, HashSet<u64>>,
    call_return_map: Map<u64, HashSet<u64>>,
) -> bool {
    forall|pc: u64|
        #[trigger] succ.contains_key(pc) && !queued.contains(pc) ==> match decoded_at(segs, pc) {
            Some((d, size)) => d.kind == CfgInstrKind::Jalr ==> states.contains_key(pc)
                && jalr_successors(
                base,
                end,
                pc,
                size,
                d,
                states[pc],
                function_entries,
                return_sites,
                sorted_function_entries,
                func_internal_targets,
                call_return_map,
            ).subset_of(succ[pc]@),
            None => true,
        }
}

/// Successors of the instruction `d` at `pc` given the register state
/// there, over the maps the propagation works with: `jalr_successors` for a
/// JALR, `direct_successors` for any other instruction.
pub open spec fn step_successors(
    base: u64,
    end: u64,
    pc: u64,
    size: u8,
    d: CfgInstr,
    state: RegisterState,
    function_entries: Set<u64>,
    return_sites: Set<u64>,
    sorted_function_entries: Seq<u64>,
    func_internal_targets: Map<u64, HashSet<u64>>,
    call_return_map: Map<u64, HashSet<u64>>,
) -> Set<u64> {
    if d.kind == CfgInstrKind::Jalr {
        jalr_successors(
            base,
            end,
            pc,
            size,
            d,
            state,
            function_entries,
            return_sites,
            sorted_function_entries,
            func_internal_targets,
            call_return_map,
        )
    } else {
        direct_successors(base, end, pc, size, d)
    }
}

/// The possible values of register `i` after the instruction `d` at `pc`
/// runs from `state`: the destination register gets what the instruction
/// computes as far as it is known (for ADDI and ADD every combination of
/// known operand values, up to `MAX_VALUES` of them), every other register
/// keeps its values.
pub open spec fn transfer_possible(
    segs: Seq<MemorySegment>,
    pc: u64,
    size: u8,
    d: CfgInstr,
    state: RegisterState,
    i: int,
) -> Option<Set<u64>> {
    if !(0 < d.rd < 32) || i != d.rd as int {
        possible_reg(state, i)
    } else if d.kind == CfgInstrKind::Addi {
        if !reg_ok(d.rs1) {
            possible_reg(state, i)
        } else if state.reg(d.rs1 as int) is Some {
            Some(shifted(state.reg(d.rs1 as int)->0, d.imm))
        } else {
            None
        }
    } else if d.kind == CfgInstrKind::Add {
        if !(reg_ok(d.rs1) && reg_ok(d.rs2)) {
            possible_reg(state, i)
        } else if state.reg(d.rs1 as int) is Some && state.reg(d.rs2 as int) is Some {
            capped(pair_sums(state.reg(d.rs1 as int)->0, state.reg(d.rs2 as int)->0))
        } else {
            None
        }
    } else {
        possible(rd_after(segs, pc, size, d, state))
    }
}

/// The state `t` covers what the instruction `d` at `pc` makes of the state
/// `s`: merging the state after the instruction into `t` changes no
/// register of `t` (x0 aside, which is always zero).
pub open spec fn covers_step(
    segs: Seq<MemorySegment>,
    pc: u64,
    size: u8,
    d: CfgInstr,
    s: RegisterState,
    t: RegisterState,
) -> bool {
    forall|i: int|
        1 <= i < 32 ==> #[trigger] join(possible_reg(t, i), transfer_possible(segs, pc, size, d, s, i))
            == possible_reg(t, i)
}

/// Every recorded pc that is not queued has passed its state on: each of
/// the successors its current state gives has a state that covers the state
/// after the instruction.
#[verifier::opaque]
pub open spec fn flow_settled(
    segs: Seq<MemorySegment>,
    base: u64,
    end: u64,
    succ: Map<u64, HashSet<u64>>,
    states: Map<u64, RegisterState>,
    queued: Set<u64>,
    function_entries: Set<u64>,
    return_sites: Set<u64>,
    sorted_function_entries: Seq<u64>,
    func_internal_targets: Map<u64, HashSet<u64>>,
    call_return_map: Map<u64, HashSet<u64>>,
) -> bool {
    forall|pc: u64|
        #[trigger] succ.contains_key(pc) && !queued.contains(pc) ==> match decoded_at(segs, pc) {
            Some((d, size)) => states.contains_key(pc) && forall|t: u64|
                #[trigger] step_successors(
                    base,
                    end,
                    pc,
                    size,
                    d,
                    states[pc],
                    function_entries,
                    return_sites,
                    sorted_function_entries,
                    func_internal_targets,
                    call_return_map,
                ).contains(t) ==> states.contains_key(t) && covers_step(
                    segs,
                    pc,
                    size,
                    d,
                    states[pc],
                    states[t],
                ),
            None => true,
        }
}

/// Every successor of a recorded JALR is one that the instruction gives
/// from some well-formed state that the current state at that pc covers.
#[verifier::opaque]
pub open spec fn jalr_bounded(
    segs: Seq<MemorySegment>,
    base: u64,
    end: u64,
    succ: Map<u64, HashSet<u64>>,
    states: Map<u64, RegisterState>,
    function_entries: Set<u64>,
    return_sites: Set<u64>,
    sorted_function_entries: Seq<u64>,
    func_internal_targets: Map<u64, HashSet<u64>>,
    call_return_map: Map<u64, HashSet<u64>>,
) -> bool {
    forall|pc: u64, t: u64|
        #![trigger succ[pc]@.contains(t)]
        succ.contains_key(pc) && succ[pc]@.contains(t) ==> match decoded_at(segs, pc) {
            Some((d, size)) => d.kind == CfgInstrKind::Jalr ==> states.contains_key(pc) && exists|
                s: RegisterState,
            |
                s.wf() && covers(states[pc], s) && #[trigger] jalr_successors(
                    base,
                    end,
                    pc,
                    size,
                    d,
                    s,
                    function_entries,
                    return_sites,
                    sorted_function_entries,
                    func_internal_targets,
                    call_return_map,
                ).contains(t),
            None => true,
        }
}

/// The value `v` is among the known values of register `i` at `q`.
pub open spec fn known_value(states: Map<u64, RegisterState>, q: u64, i: int, v: u64) -> bool {
    states.contains_key(q) && match possible_reg(states[q], i) {
        Some(vals) => vals.contains(v),
        None => false,
    }
}

/// `p` is a recorded pc with `q` among its successors, and the instruction
/// there computes the value `v` for register `i` from the well-formed state
/// `s`, which the state at `p` covers.
pub open spec fn value_source(
    segs: Seq<MemorySegment>,
    succ: Map<u64, HashSet<u64>>,
    states: Map<u64, RegisterState>,
    p: u64,
    s: RegisterState,
    q: u64,
    i: int,
    v: u64,
) -> bool {
    &&& succ.contains_key(p)
    &&& succ[p]@.contains(q)
    &&& states.contains_key(p)
    &&& s.wf()
    &&& covers(states[p], s)
    &&& match decoded_at(segs, p) {
        Some((d, size)) => match transfer_possible(segs, p, size, d, s, i) {
            Some(w) => w.contains(v),
            None => false,
        },
        None => false,
    }
}

/// Every known value of a register other than x0 comes from a predecessor:
/// the instruction at a recorded pc with that pc among its successors
/// computes it from a state that the state there covers. (Propagation
/// starts from states where only x0 is known.)
#[verifier::opaque]
pub open spec fn values_sourced(
    segs: Seq<MemorySegment>,
    succ: Map<u64, HashSet<u64>>,
    states: Map<u64, RegisterState>,
) -> bool {
    forall|q: u64, i: int, v: u64|
        1 <= i < 32 && #[trigger] known_value(states, q, i, v) ==> exists|p: u64, s: RegisterState|
            #[trigger] value_source(segs, succ, states, p, s, q, i, v)
}

/// A visit keeps every known value sourced: a value a target got from the
/// state after the instruction comes from `pc`; any other was there before
/// and its source still is one, as successors and states only grow.
#[verifier::spinoff_prover]
proof fn lemma_sourced_after_visit(
    segs: Seq<MemorySegment>,
    succ0: Map<u64, HashSet<u64>>,
    succ1: Map<u64, HashSet<u64>>,
    states0: Map<u64, RegisterState>,
    states1: Map<u64, RegisterState>,
    pc: u64,
    d: CfgInstr,
    size: u8,
    state: RegisterState,
    state_out: RegisterState,
    targets: Seq<u64>,
    succs: Set<u64>,
)
    requires
        values_sourced(segs, succ0, states0),
        targets.to_set() == succs,
        states0.contains_key(pc),
        state.wf(),
        same_regs(state, states0[pc]),
        decoded_at(segs, pc) == Some((d, size)),
        forall|i: int| #[trigger] possible_reg(state_out, i) == transfer_possible(segs, pc, size, d, state, i),
        forall|q: u64, i: int, v: u64|
            1 <= i < 32 && #[trigger] known_value(states1, q, i, v) ==> known_value(states0, q, i, v) || (
            targets.contains(q) && match possible_reg(state_out, i) {
                Some(w) => w.contains(v),
                None => false,
            }),
        succ1.contains_key(pc),
        succs.subset_of(succ1[pc]@),
        forall|p: u64| succ0.contains_key(p) ==> #[trigger] succ1.contains_key(p),
        forall|p: u64| succ0.contains_key(p) ==> succ0[p]@.subset_of(#[trigger] succ1[p]@),
        forall|q: u64| states0.contains_key(q) ==> #[trigger] states1.contains_key(q),
        forall|q: u64| states0.contains_key(q) ==> covers(#[trigger] states1[q], states0[q]),
    ensures
        values_sourced(segs, succ1, states1),
{
    reveal(values_sourced);
    assert(covers(states1[pc], state)) by {
        lemma_covers_refl(state);
        assert forall|i: int| 1 <= i < 32 implies #[trigger] join(
            possible(states0[pc].reg(i)),
            possible(state.reg(i)),
        ) == possible(states0[pc].reg(i)) by {
            assert(state.reg(i) == states0[pc].reg(i));
            assert(join(possible(state.reg(i)), possible(state.reg(i))) == possible(state.reg(i)));
        }
        lemma_covers_trans(state, states0[pc], states1[pc]);
    }
    assert forall|q: u64, i: int, v: u64|
        1 <= i < 32 && #[trigger] known_value(states1, q, i, v) implies exists|p: u64, s: RegisterState|
        #[trigger] value_source(segs, succ1, states1, p, s, q, i, v) by {
        if known_value(states0, q, i, v) {
            let (p, s) = choose|p: u64, s: RegisterState|
                #[trigger] value_source(segs, succ0, states0, p, s, q, i, v);
            lemma_covers_trans(s, states0[p], states1[p]);
            assert(value_source(segs, succ1, states1, p, s, q, i, v));
        } else {
            assert(possible_reg(state_out, i) == transfer_possible(segs, pc, size, d, state, i));
            assert(targets.to_set().contains(q));
            assert(value_source(segs, succ1, states1, pc, state, q, i, v));
        }
    }
}

/// Two states that track the same values give the same successors and the
/// same state after any instruction.
proof fn lemma_step_same_regs(
    segs: Seq<MemorySegment>,
    base: u64,
    end: u64,
    pc: u64,
    size: u8,
    d: CfgInstr,
    a: RegisterState,
    b: RegisterState,
    fe: Set<u64>,
    rs: Set<u64>,
    sorted: Seq<u64>,
    fit: Map<u64, HashSet<u64>>,
    crm: Map<u64, HashSet<u64>>,
)
    requires
        same_regs(a, b),
    ensures
        step_successors(base, end, pc, size, d, a, fe, rs, sorted, fit, crm) == step_successors(
            base,
            end,
            pc,
            size,
            d,
            b,
            fe,
            rs,
            sorted,
            fit,
            crm,
        ),
        forall|i: int|
            #[trigger] transfer_possible(segs, pc, size, d, a, i) == transfer_possible(
                segs,
                pc,
                size,
                d,
                b,
                i,
            ),
        forall|t: RegisterState|
            #[trigger] covers_step(segs, pc, size, d, a, t) == covers_step(segs, pc, size, d, b, t),
{
    assert(a.reg(d.rs1 as int) == b.reg(d.rs1 as int));
    assert(a.reg(d.rs2 as int) == b.reg(d.rs2 as int));
    assert(a.reg(d.rd as int) == b.reg(d.rd as int));
    assert forall|i: int|
        #[trigger] transfer_possible(segs, pc, size, d, a, i) == transfer_possible(
            segs,
            pc,
            size,
            d,
            b,
            i,
        ) by {
        assert(a.reg(i) == b.reg(i));
    }
    assert forall|t: RegisterState|
        #[trigger] covers_step(segs, pc, size, d, a, t) == covers_step(segs, pc, size, d, b, t) by {
        if covers_step(segs, pc, size, d, a, t) {
            assert forall|i: int| 1 <= i < 32 implies #[trigger] join(
                possible_reg(t, i),
                transfer_possible(segs, pc, size, d, b, i),
            ) == possible_reg(t, i) by {
                assert(transfer_possible(segs, pc, size, d, a, i) == transfer_possible(
                    segs,
                    pc,
                    size,
                    d,
                    b,
                    i,
                ));
            }
        }
        if covers_step(segs, pc, size, d, b, t) {
            assert forall|i: int| 1 <= i < 32 implies #[trigger] join(
                possible_reg(t, i),
                transfer_possible(segs, pc, size, d, a, i),
            ) == possible_reg(t, i) by {
                assert(transfer_possible(segs, pc, size, d, a, i) == transfer_possible(
                    segs,
                    pc,
                    size,
                    d,
                    b,
                    i,
                ));
            }
        }
    }
}

/// A state that covers what an instruction makes of `s` keeps doing so as
/// it grows.
proof fn lemma_covers_step_grow(
    segs: Seq<MemorySegment>,
    pc: u64,
    size: u8,
    d: CfgInstr,
    s: RegisterState,
    t0: RegisterState,
    t1: RegisterState,
)
    requires
        covers_step(segs, pc, size, d, s, t0),
        covers(t1, t0),
    ensures
        covers_step(segs, pc, size, d, s, t1),
{
    assert forall|i: int| 1 <= i < 32 implies #[trigger] join(
        possible_reg(t1, i),
        transfer_possible(segs, pc, size, d, s, i),
    ) == possible_reg(t1, i) by {
        assert(join(possible_reg(t0, i), transfer_possible(segs, pc, size, d, s, i)) == possible_reg(
            t0,
            i,
        ));
        assert(join(possible(t1.reg(i)), possible(t0.reg(i))) == possible(t1.reg(i)));
        lemma_join_absorbs_trans(
            transfer_possible(segs, pc, size, d, s, i),
            possible_reg(t0, i),
            possible_reg(t1, i),
        );
    }
}

/// What `transfer` promises of its result, register by register, as
/// `transfer_possible`.
proof fn lemma_transfer_possible(
    segs: Seq<MemorySegment>,
    pc: u64,
    size: u8,
    d: CfgInstr,
    state: RegisterState,
    r: RegisterState,
)
    requires
        forall|i: int| i != d.rd ==> #[trigger] r.reg(i) == state.reg(i),
        !(0 < d.rd < 32) ==> forall|i: int| #[trigger] r.reg(i) == state.reg(i),
        0 < d.rd < 32 && d.kind != CfgInstrKind::Addi && d.kind != CfgInstrKind::Add ==> r.reg(
            d.rd as int,
        ) == rd_after(segs, pc, size, d, state),
        0 < d.rd < 32 && d.kind == CfgInstrKind::Addi ==> possible_reg(r, d.rd as int) == if !reg_ok(
            d.rs1,
        ) {
            possible_reg(state, d.rd as int)
        } else if state.reg(d.rs1 as int) is Some {
            Some(shifted(state.reg(d.rs1 as int)->0, d.imm))
        } else {
            None
        },
        0 < d.rd < 32 && d.kind == CfgInstrKind::Add ==> possible_reg(r, d.rd as int) == if !(
        reg_ok(d.rs1) && reg_ok(d.rs2)) {
            possible_reg(state, d.rd as int)
        } else if state.reg(d.rs1 as int) is Some && state.reg(d.rs2 as int) is Some {
            capped(pair_sums(state.reg(d.rs1 as int)->0, state.reg(d.rs2 as int)->0))
        } else {
            None
        },
    ensures
        forall|i: int| #[trigger] possible_reg(r, i) == transfer_possible(segs, pc, size, d, state, i),
{
    assert forall|i: int| #[trigger] possible_reg(r, i) == transfer_possible(
        segs,
        pc,
        size,
        d,
        state,
        i,
    ) by {
        assert(r.reg(i) == state.reg(i) || (0 < d.rd < 32 && i == d.rd));
    }
}

/// Each target that was given the state after the instruction covers what
/// the instruction makes of the state before it.
proof fn lemma_targets_cover(
    segs: Seq<MemorySegment>,
    pc: u64,
    size: u8,
    d: CfgInstr,
    state: RegisterState,
    state_out: RegisterState,
    targets: Seq<u64>,
    succs: Set<u64>,
    states: Map<u64, RegisterState>,
)
    requires
        forall|i: int| #[trigger] possible_reg(state_out, i) == transfer_possible(segs, pc, size, d, state, i),
        targets.to_set() == succs,
        forall|j: int| 0 <= j < targets.len() ==> #[trigger] states.contains_key(targets[j]),
        forall|j: int| 0 <= j < targets.len() ==> covers(#[trigger] states[targets[j]], state_out),
    ensures
        forall|t: u64|
            #[trigger] succs.contains(t) ==> states.contains_key(t) && covers_step(
                segs,
                pc,
                size,
                d,
                state,
                states[t],
            ),
{
    assert forall|t: u64| #[trigger] succs.contains(t) implies states.contains_key(t) && covers_step(
        segs,
        pc,
        size,
        d,
        state,
        states[t],
    ) by {
        assert(targets.to_set().contains(t));
        assert(targets.contains(t));
        let j = choose|j: int| 0 <= j < targets.len() && targets[j] == t;
        assert(states.contains_key(targets[j]));
        assert(covers(states[targets[j]], state_out));
        assert forall|i: int| 1 <= i < 32 implies #[trigger] join(
            possible_reg(states[t], i),
            transfer_possible(segs, pc, size, d, state, i),
        ) == possible_reg(states[t], i) by {
            assert(possible_reg(state_out, i) == transfer_possible(segs, pc, size, d, state, i));
            assert(join(possible(states[t].reg(i)), possible(state_out.reg(i))) == possible(
                states[t].reg(i),
            ));
        }
    }
}

/// A visit keeps the states passed on: `pc` passes its state to the
/// successors it gets, and every other recorded pc that is not queued keeps
/// both its state and the states of its successors covering what it passes.
#[verifier::spinoff_prover]
proof fn lemma_flow_after_visit(
    segs: Seq<MemorySegment>,
    base: u64,
    end: u64,
    succ0: Map<u64, HashSet<u64>>,
    succ1: Map<u64, HashSet<u64>>,
    states0: Map<u64, RegisterState>,
    states1: Map<u64, RegisterState>,
    iw0: Set<u64>,
    iw1: Set<u64>,
    pc: u64,
    d: CfgInstr,
    size: u8,
    state: RegisterState,
    succs: Set<u64>,
    fe: Set<u64>,
    rs: Set<u64>,
    sorted: Seq<u64>,
    fit: Map<u64, HashSet<u64>>,
    crm: Map<u64, HashSet<u64>>,
)
    requires
        flow_settled(segs, base, end, succ0, states0, iw0.insert(pc), fe, rs, sorted, fit, crm),
        states0.contains_key(pc),
        decoded_at(segs, pc) == Some((d, size)),
        same_regs(state, states0[pc]),
        succs == step_successors(base, end, pc, size, d, state, fe, rs, sorted, fit, crm),
        forall|t: u64|
            #[trigger] succs.contains(t) ==> states1.contains_key(t) && covers_step(
                segs,
                pc,
                size,
                d,
                state,
                states1[t],
            ),
        iw0.subset_of(iw1),
        forall|q: u64| states0.contains_key(q) ==> #[trigger] states1.contains_key(q),
        forall|q: u64|
            states0.contains_key(q) && !iw1.contains(q) ==> same_regs(#[trigger] states1[q], states0[q]),
        forall|q: u64| states0.contains_key(q) ==> covers(#[trigger] states1[q], states0[q]),
        forall|q: u64| #[trigger] succ1.contains_key(q) ==> succ0.contains_key(q) || q == pc,
    ensures
        flow_settled(segs, base, end, succ1, states1, iw1, fe, rs, sorted, fit, crm),
{
    reveal(flow_settled);
    assert forall|p: u64| #[trigger] succ1.contains_key(p) && !iw1.contains(p) implies match decoded_at(
        segs,
        p,
    ) {
        Some((dp, sz)) => states1.contains_key(p) && forall|t: u64|
            #[trigger] step_successors(
                base,
                end,
                p,
                sz,
                dp,
                states1[p],
                fe,
                rs,
                sorted,
                fit,
                crm,
            ).contains(t) ==> states1.contains_key(t) && covers_step(
                segs,
                p,
                sz,
                dp,
                states1[p],
                states1[t],
            ),
        None => true,
    } by {
        if p == pc {
            assert(same_regs(states1[pc], states0[pc]));
            assert(same_regs(states1[pc], state)) by {
                assert forall|i: int| #[trigger] states1[pc].reg(i) == state.reg(i) by {
                    assert(states1[pc].reg(i) == states0[pc].reg(i));
                    assert(state.reg(i) == states0[pc].reg(i));
                }
            }
            lemma_step_same_regs(segs, base, end, pc, size, d, states1[pc], state, fe, rs, sorted, fit, crm);
            assert forall|t: u64|
                #[trigger] step_successors(
                    base,
                    end,
                    pc,
                    size,
                    d,
                    states1[pc],
                    fe,
                    rs,
                    sorted,
                    fit,
                    crm,
                ).contains(t) implies states1.contains_key(t) && covers_step(
                segs,
                pc,
                size,
                d,
                states1[pc],
                states1[t],
            ) by {
                assert(succs.contains(t));
                assert(covers_step(segs, pc, size, d, state, states1[t]));
            }
        } else {
            assert(!iw0.insert(pc).contains(p));
            assert(succ0.contains_key(p));
            if let Some((dp, sz)) = decoded_at(segs, p) {
                assert(states0.contains_key(p));
                assert(same_regs(states1[p], states0[p]));
                lemma_step_same_regs(segs, base, end, p, sz, dp, states1[p], states0[p], fe, rs, sorted, fit, crm);
                assert forall|t: u64|
                    #[trigger] step_successors(
                        base,
                        end,
                        p,
                        sz,
                        dp,
                        states1[p],
                        fe,
                        rs,
                        sorted,
                        fit,
                        crm,
                    ).contains(t) implies states1.contains_key(t) && covers_step(
                    segs,
                    p,
                    sz,
                    dp,
                    states1[p],
                    states1[t],
                ) by {
                    assert(step_successors(base, end, p, sz, dp, states0[p], fe, rs, sorted, fit, crm).contains(t));
                    assert(states0.contains_key(t));
                    assert(covers_step(segs, p, sz, dp, states0[p], states0[t]));
                    lemma_covers_step_grow(segs, p, sz, dp, states0[p], states0[t], states1[t]);
                }
            }
        }
    }
}

/// A visit keeps every successor of a recorded JALR one that the
/// instruction gives from a state that the current state at that pc covers.
#[verifier::spinoff_prover]
proof fn lemma_bounded_after_visit(
    segs: Seq<MemorySegment>,
    base: u64,
    end: u64,
    succ0: Map<u64, HashSet<u64>>,
    succ1: Map<u64, HashSet<u64>>,
    states0: Map<u64, RegisterState>,
    states1: Map<u64, RegisterState>,
    pc: u64,
    d: CfgInstr,
    size: u8,
    state: RegisterState,
    succs: Set<u64>,
    fe: Set<u64>,
    rs: Set<u64>,
    sorted: Seq<u64>,
    fit: Map<u64, HashSet<u64>>,
    crm: Map<u64, HashSet<u64>>,
)
    requires
        jalr_bounded(segs, base, end, succ0, states0, fe, rs, sorted, fit, crm),
        recorded_have_states(succ0, states0),
        states0.contains_key(pc),
        states0[pc].wf(),
        state.wf(),
        decoded_at(segs, pc) == Some((d, size)),
        same_regs(state, states0[pc]),
        d.kind == CfgInstrKind::Jalr ==> succs == jalr_successors(
            base,
            end,
            pc,
            size,
            d,
            state,
            fe,
            rs,
            sorted,
            fit,
            crm,
        ),
        forall|q: u64| states0.contains_key(q) ==> #[trigger] states1.contains_key(q),
        forall|q: u64| states0.contains_key(q) ==> covers(#[trigger] states1[q], states0[q]),
        forall|p: u64, q: u64|
            succ1.contains_key(p) && #[trigger] succ1[p]@.contains(q) ==> (succ0.contains_key(p)
                && succ0[p]@.contains(q)) || (p == pc && succs.contains(q)),
    ensures
        jalr_bounded(segs, base, end, succ1, states1, fe, rs, sorted, fit, crm),
{
    reveal(jalr_bounded);
    reveal(recorded_have_states);
    assert(covers(states1[pc], state)) by {
        lemma_covers_refl(state);
        assert forall|i: int| 1 <= i < 32 implies #[trigger] join(
            possible(states0[pc].reg(i)),
            possible(state.reg(i)),
        ) == possible(states0[pc].reg(i)) by {
            assert(state.reg(i) == states0[pc].reg(i));
            assert(join(possible(state.reg(i)), possible(state.reg(i))) == possible(state.reg(i)));
        }
        lemma_covers_trans(state, states0[pc], states1[pc]);
    }
    assert forall|p: u64, t: u64|
        succ1.contains_key(p) && #[trigger] succ1[p]@.contains(t) implies match decoded_at(segs, p) {
        Some((dp, sz)) => dp.kind == CfgInstrKind::Jalr ==> states1.contains_key(p) && exists|
            s: RegisterState,
        |
            s.wf() && covers(states1[p], s) && #[trigger] jalr_successors(
                base,
                end,
                p,
                sz,
                dp,
                s,
                fe,
                rs,
                sorted,
                fit,
                crm,
            ).contains(t),
        None => true,
    } by {
        if let Some((dp, sz)) = decoded_at(segs, p) {
            if dp.kind == CfgInstrKind::Jalr {
                if succ0.contains_key(p) && succ0[p]@.contains(t) {
                    let s = choose|s: RegisterState|
                        s.wf() && covers(states0[p], s) && #[trigger] jalr_successors(
                            base,
                            end,
                            p,
                            sz,
                            dp,
                            s,
                            fe,
                            rs,
                            sorted,
                            fit,
                            crm,
                        ).contains(t);
                    lemma_covers_trans(s, states0[p], states1[p]);
                } else {
                    assert(p == pc && succs.contains(t));
                    assert(jalr_successors(base, end, p, sz, dp, state, fe, rs, sorted, fit, crm).contains(t));
                }
            }
        }
    }
}

/// What extending a multimap's entry at `pc` by `got` does to its view.
#[verifier::spinoff_prover]
proof fn lemma_extend_view(
    before: Map<u64, HashSet<u64>>,
    after: Map<u64, HashSet<u64>>,
    pc: u64,
    got: Set<u64>,
)
    requires
        sets_view(after) == sets_view(before).insert(
            pc,
            if before.contains_key(pc) {
                before[pc]@.union(got)
            } else {
                got
            },
        ),
    ensures
        after.contains_key(pc),
        after[pc]@ == if before.contains_key(pc) {
            before[pc]@.union(got)
        } else {
            got
        },
        forall|p: u64|
            p != pc ==> (#[trigger] after.contains_key(p) == before.contains_key(p)) && (
            before.contains_key(p) ==> after[p]@ == before[p]@),
        forall|q: u64| before.contains_key(q) ==> #[trigger] after.contains_key(q),
        forall|p: u64|
            before.contains_key(p) ==> before[p]@.subset_of(#[trigger] after[p]@),
        got.subset_of(after[pc]@),
        forall|p: u64, q: u64|
            after.contains_key(p) && #[trigger] after[p]@.contains(q) ==> (before.contains_key(p)
                && before[p]@.contains(q)) || (p == pc && got.contains(q)),
{
    assert(sets_view(after).contains_key(pc));
    assert(sets_view(after)[pc] == after[pc]@);
    assert forall|p: u64| p != pc implies (#[trigger] after.contains_key(p) == before.contains_key(p))
        && (before.contains_key(p) ==> after[p]@ == before[p]@) by {
        if after.contains_key(p) {
            assert(sets_view(after).contains_key(p));
            assert(sets_view(before).contains_key(p));
        }
        if before.contains_key(p) {
            assert(sets_view(before).contains_key(p));
            assert(sets_view(after).contains_key(p));
            assert(sets_view(before)[p] == before[p]@);
            assert(sets_view(after)[p] == after[p]@);
        }
    }
    assert forall|p: u64| before.contains_key(p) implies before[p]@.subset_of(#[trigger] after[p]@) by {
        if p == pc {
            assert(before[pc]@.subset_of(before[pc]@.union(got)));
        } else {
            assert(after.contains_key(p) == before.contains_key(p));
            assert(after[p]@ == before[p]@);
        }
    }
}

/// Extending the entry at `pc` by the successors of the instruction there
/// keeps the successor map correct for non-JALR instructions.
#[verifier::spinoff_prover]
#[verifier::rlimit(50)]
proof fn lemma_successors_ok_extend(
    segs: Seq<MemorySegment>,
    base: u64,
    end: u64,
    before: Map<u64, HashSet<u64>>,
    after: Map<u64, HashSet<u64>>,
    pc: u64,
    got: Set<u64>,
)
    requires
        successors_ok(segs, base, end, before),
        decoded_at(segs, pc) is Some,
        decoded_at(segs, pc) matches Some((d, size)) ==> (d.kind != CfgInstrKind::Jalr ==> got
            == direct_successors(base, end, pc, size, d)),
        after.contains_key(pc),
        after[pc]@ == if before.contains_key(pc) {
            before[pc]@.union(got)
        } else {
            got
        },
        forall|p: u64|
            p != pc ==> (#[trigger] after.contains_key(p) == before.contains_key(p)) && (
            before.contains_key(p) ==> after[p]@ == before[p]@),
    ensures
        successors_ok(segs, base, end, after),
{
    assert forall|p: u64| #[trigger] after.contains_key(p) implies match decoded_at(segs, p) {
        Some((d, sz)) => d.kind != CfgInstrKind::Jalr ==> after[p]@ == direct_successors(
            base,
            end,
            p,
            sz,
            d,
        ),
        None => false,
    } by {
        if p == pc && before.contains_key(pc) {
            if let Some((d, sz)) = decoded_at(segs, pc) {
                if d.kind != CfgInstrKind::Jalr {
                    assert(before[pc]@.union(got) =~= got);
                }
            }
        }
    }
}

/// After a visit of `pc` with a state that tracks what `pc`'s state
/// tracks: every recorded pc still has a state, and every recorded JALR
/// that is not queued still has the successors its state gives.
#[verifier::spinoff_prover]
proof fn lemma_settled_after_visit(
    segs: Seq<MemorySegment>,
    base: u64,
    end: u64,
    succ0: Map<u64, HashSet<u64>>,
    succ1: Map<u64, HashSet<u64>>,
    states0: Map<u64, RegisterState>,
    states1: Map<u64, RegisterState>,
    iw0: Set<u64>,
    iw1: Set<u64>,
    pc: u64,
    d: CfgInstr,
    size: u8,
    state: RegisterState,
    succs: Set<u64>,
    fe: Set<u64>,
    rs: Set<u64>,
    sorted: Seq<u64>,
    fit: Map<u64, HashSet<u64>>,
    crm: Map<u64, HashSet<u64>>,
)
    requires
        jalr_settled(segs, base, end, succ0, states0, iw0.insert(pc), fe, rs, sorted, fit, crm),
        recorded_have_states(succ0, states0),
        states0.contains_key(pc),
        decoded_at(segs, pc) == Some((d, size)),
        forall|i: int| #[trigger] state.reg(i) == states0[pc].reg(i),
        d.kind == CfgInstrKind::Jalr ==> succs == jalr_successors(
            base,
            end,
            pc,
            size,
            d,
            state,
            fe,
            rs,
            sorted,
            fit,
            crm,
        ),
        iw0.subset_of(iw1),
        forall|q: u64| states0.contains_key(q) ==> #[trigger] states1.contains_key(q),
        forall|q: u64|
            states0.contains_key(q) && !iw1.contains(q) ==> same_regs(#[trigger] states1[q], states0[q]),
        succ1.contains_key(pc),
        succs.subset_of(succ1[pc]@),
        forall|p: u64| succ0.contains_key(p) ==> succ0[p]@.subset_of(#[trigger] succ1[p]@),
        forall|q: u64| #[trigger] succ1.contains_key(q) ==> succ0.contains_key(q) || q == pc,
        forall|q: u64| succ0.contains_key(q) ==> #[trigger] succ1.contains_key(q),
    ensures
        recorded_have_states(succ1, states1),
        jalr_settled(segs, base, end, succ1, states1, iw1, fe, rs, sorted, fit, crm),
{
    reveal(recorded_have_states);
    reveal(jalr_settled);
    assert forall|q: u64| #[trigger] succ1.contains_key(q) implies states1.contains_key(q) by {
        if q != pc {
            assert(succ0.contains_key(q));
        }
    }
    assert forall|q: u64| #[trigger] succ1.contains_key(q) && !iw1.contains(q) implies match decoded_at(
        segs,
        q,
    ) {
        Some((dq, sz)) => dq.kind == CfgInstrKind::Jalr ==> states1.contains_key(q) && jalr_successors(
            base,
            end,
            q,
            sz,
            dq,
            states1[q],
            fe,
            rs,
            sorted,
            fit,
            crm,
        ).subset_of(succ1[q]@),
        None => true,
    } by {
        if q == pc {
            assert(same_regs(states1[pc], states0[pc]));
            assert(states1[pc].reg(d.rs1 as int) == states0[pc].reg(d.rs1 as int));
            assert(state.reg(d.rs1 as int) == states0[pc].reg(d.rs1 as int));
        } else {
            assert(!iw0.insert(pc).contains(q));
            assert(succ0.contains_key(q));
            if let Some((dq, sz)) = decoded_at(segs, q) {
                if dq.kind == CfgInstrKind::Jalr {
                    assert(states0.contains_key(q));
                    assert(same_regs(states1[q], states0[q]));
                    assert(states1[q].reg(dq.rs1 as int) == states0[q].reg(dq.rs1 as int));
                    assert(succ0[q]@.subset_of(succ1[q]@));
                }
            }
        }
    }
}

/// Once the propagation is complete, each recorded JALR has among its
/// successors those its final state gives, stated over the candidate sets.
#[verifier::spinoff_prover]
proof fn lemma_settled_sets(
    segs: Seq<MemorySegment>,
    base: u64,
    end: u64,
    succ: Map<u64, HashSet<u64>>,
    states: Map<u64, RegisterState>,
    fe: Set<u64>,
    it: Set<u64>,
    rs: Set<u64>,
    sorted: Seq<u64>,
    fit: Map<u64, HashSet<u64>>,
    crm: Map<u64, HashSet<u64>>,
)
    requires
        jalr_settled(segs, base, end, succ, states, Set::empty(), fe, rs, sorted, fit, crm),
        forall|l: u64| crate::analyzer::floor_value(sorted, l) == crate::analyzer::set_floor(fe, l),
        forall|t: u64|
            it.contains(t) ==> #[trigger] fit.contains_key(crate::analyzer::floor_value(sorted, t)),
        forall|f: u64, t: u64|
            fit.contains_key(f) ==> (#[trigger] fit[f]@.contains(t) <==> it.contains(t)
                && crate::analyzer::floor_value(sorted, t) == f),
    ensures
        forall|pc: u64|
            #[trigger] succ.contains_key(pc) ==> match decoded_at(segs, pc) {
                Some((d, size)) => d.kind == CfgInstrKind::Jalr ==> indirect_successors(
                    base,
                    end,
                    pc,
                    size,
                    d,
                    states[pc],
                    fe,
                    it,
                    rs,
                    crm,
                ).subset_of(succ[pc]@),
                None => true,
            },
{
    reveal(jalr_settled);
    assert forall|pc: u64| #[trigger] succ.contains_key(pc) implies match decoded_at(segs, pc) {
        Some((d, size)) => d.kind == CfgInstrKind::Jalr ==> indirect_successors(
            base,
            end,
            pc,
            size,
            d,
            states[pc],
            fe,
            it,
            rs,
            crm,
        ).subset_of(succ[pc]@),
        None => true,
    } by {
        assert(!Set::<u64>::empty().contains(pc));
        if let Some((d, size)) = decoded_at(segs, pc) {
            if d.kind == CfgInstrKind::Jalr {
                lemma_jalr_successors_sets(base, end, pc, size, d, states[pc], fe, it, rs, sorted, fit, crm);
            }
        }
    }
}

/// Over the maps the propagation works with, a JALR has the successors that
/// `indirect_successors` gives over the candidate sets.
proof fn lemma_jalr_successors_sets(
    base: u64,
    end: u64,
    pc: u64,
    size: u8,
    d: CfgInstr,
    state: RegisterState,
    fe: Set<u64>,
    it: Set<u64>,
    rs: Set<u64>,
    sorted: Seq<u64>,
    fit: Map<u64, HashSet<u64>>,
    crm: Map<u64, HashSet<u64>>,
)
    requires
        forall|l: u64| crate::analyzer::floor_value(sorted, l) == crate::analyzer::set_floor(fe, l),
        forall|t: u64|
            it.contains(t) ==> #[trigger] fit.contains_key(crate::analyzer::floor_value(sorted, t)),
        forall|f: u64, t: u64|
            fit.contains_key(f) ==> (#[trigger] fit[f]@.contains(t) <==> it.contains(t)
                && crate::analyzer::floor_value(sorted, t) == f),
    ensures
        indirect_successors(base, end, pc, size, d, state, fe, it, rs, crm) == jalr_successors(
            base,
            end,
            pc,
            size,
            d,
            state,
            fe,
            rs,
            sorted,
            fit,
            crm,
        ),
{
    let f = crate::analyzer::floor_value(sorted, pc);
    assert(f == crate::analyzer::set_floor(fe, pc));
    let part = Set::new(
        |t: u64| it.contains(t) && crate::analyzer::set_floor(fe, t) == f,
    );
    assert(part =~= (if fit.contains_key(f) {
        fit[f]@
    } else {
        Set::empty()
    })) by {
        assert forall|t: u64| part.contains(t) implies (if fit.contains_key(f) {
            fit[f]@
        } else {
            Set::empty()
        }).contains(t) by {
            assert(crate::analyzer::floor_value(sorted, t) == crate::analyzer::set_floor(fe, t));
            assert(fit.contains_key(crate::analyzer::floor_value(sorted, t)));
        }
        if fit.contains_key(f) {
            assert forall|t: u64| fit[f]@.contains(t) implies part.contains(t) by {
                assert(crate::analyzer::floor_value(sorted, t) == crate::analyzer::set_floor(fe, t));
            }
        }
    }
    assert(indirect_successors(base, end, pc, size, d, state, fe, it, rs, crm)
        == jalr_successors(base, end, pc, size, d, state, fe, rs, sorted, fit, crm));
}

/// Successors of the instruction `d` at `pc` given the register state
/// there, over the candidate target sets: `indirect_successors` for a JALR,
/// `direct_successors` for any other instruction.
pub open spec fn successors_given(
    base: u64,
    end: u64,
    pc: u64,
    size: u8,
    d: CfgInstr,
    state: RegisterState,
    function_entries: Set<u64>,
    internal_targets: Set<u64>,
    return_sites: Set<u64>,
    call_return_map: Map<u64, HashSet<u64>>,
) -> Set<u64> {
    if d.kind == CfgInstrKind::Jalr {
        indirect_successors(
            base,
            end,
            pc,
            size,
            d,
            state,
            function_entries,
            internal_targets,
            return_sites,
            call_return_map,
        )
    } else {
        direct_successors(base, end, pc, size, d)
    }
}

/// Once the propagation is complete, every recorded pc has passed its final
/// state on to the successors that state gives, stated over the candidate
/// sets; and every successor of a recorded JALR is one it gives from a
/// state that its final state covers.
#[verifier::spinoff_prover]
proof fn lemma_flow_sets(
    cfg: &CfgAnalyzer,
    succ: Map<u64, HashSet<u64>>,
    states: Map<u64, RegisterState>,
    complete: bool,
    fe: Set<u64>,
    it: Set<u64>,
    rs: Set<u64>,
    sorted: Seq<u64>,
    fit: Map<u64, HashSet<u64>>,
    crm: Map<u64, HashSet<u64>>,
)
    requires
        complete ==> flow_settled(
            cfg.segments(),
            cfg.base(),
            cfg.end(),
            succ,
            states,
            Set::empty(),
            fe,
            rs,
            sorted,
            fit,
            crm,
        ),
        jalr_bounded(cfg.segments(), cfg.base(), cfg.end(), succ, states, fe, rs, sorted, fit, crm),
        forall|l: u64| crate::analyzer::floor_value(sorted, l) == crate::analyzer::set_floor(fe, l),
        forall|t: u64|
            it.contains(t) ==> #[trigger] fit.contains_key(crate::analyzer::floor_value(sorted, t)),
        forall|f: u64, t: u64|
            fit.contains_key(f) ==> (#[trigger] fit[f]@.contains(t) <==> it.contains(t)
                && crate::analyzer::floor_value(sorted, t) == f),
    ensures
        complete ==> cfg.states_passed_on(succ, states, fe, it, rs, crm),
        cfg.jalr_successors_within(succ, states, fe, it, rs, crm),
{
    reveal(flow_settled);
    reveal(jalr_bounded);
    reveal(CfgAnalyzer::states_passed_on);
    reveal(CfgAnalyzer::jalr_successors_within);
    let segs = cfg.segments();
    let base = cfg.base();
    let end = cfg.end();
    if complete {
        assert forall|pc: u64| #[trigger] succ.contains_key(pc) implies match decoded_at(segs, pc) {
            Some((d, size)) => forall|t: u64|
                #[trigger] successors_given(
                    base,
                    end,
                    pc,
                    size,
                    d,
                    states[pc],
                    fe,
                    it,
                    rs,
                    crm,
                ).contains(t) ==> states.contains_key(t) && covers_step(
                    segs,
                    pc,
                    size,
                    d,
                    states[pc],
                    states[t],
                ),
            None => true,
        } by {
            assert(!Set::<u64>::empty().contains(pc));
            if let Some((d, size)) = decoded_at(segs, pc) {
                lemma_jalr_successors_sets(base, end, pc, size, d, states[pc], fe, it, rs, sorted, fit, crm);
                assert(successors_given(base, end, pc, size, d, states[pc], fe, it, rs, crm)
                    == step_successors(base, end, pc, size, d, states[pc], fe, rs, sorted, fit, crm));
            }
        }
    }
    assert forall|pc: u64, t: u64|
        succ.contains_key(pc) && #[trigger] succ[pc]@.contains(t) implies match decoded_at(segs, pc) {
        Some((d, size)) => d.kind == CfgInstrKind::Jalr ==> exists|s: RegisterState|
            s.wf() && covers(states[pc], s) && #[trigger] indirect_successors(
                base,
                end,
                pc,
                size,
                d,
                s,
                fe,
                it,
                rs,
                crm,
            ).contains(t),
        None => true,
    } by {
        if let Some((d, size)) = decoded_at(segs, pc) {
            if d.kind == CfgInstrKind::Jalr {
                let s = choose|s: RegisterState|
                    s.wf() && covers(states[pc], s) && #[trigger] jalr_successors(
                        base,
                        end,
                        pc,
                        size,
                        d,
                        s,
                        fe,
                        rs,
                        sorted,
                        fit,
                        crm,
                    ).contains(t);
                lemma_jalr_successors_sets(base, end, pc, size, d, s, fe, it, rs, sorted, fit, crm);
            }
        }
    }
}

/// Every successor that decodes has successors recorded of its own.
pub open spec fn closed_under_successors(segs: Seq<MemorySegment>, succ: Map<u64, HashSet<u64>>) -> bool {
    forall|p: u64, q: u64|
        succ.contains_key(p) && #[trigger] succ[p]@.contains(q) && decoded_at(segs, q) is Some
            ==> succ.contains_key(q)
}

/// The worklist holds no address twice, and the queued set is what it holds.
#[verifier::opaque]
pub open spec fn queue_ok(wl: Seq<u64>, queued: Set<u64>) -> bool {
    &&& wl.no_duplicates()
    &&& forall|x: u64| #[trigger] queued.contains(x) <==> wl.contains(x)
}

/// Every address with a state is queued, has been visited, or does not
/// decode.
#[verifier::opaque]
pub open spec fn pending_ok(
    segs: Seq<MemorySegment>,
    states: Map<u64, RegisterState>,
    queued: Set<u64>,
    succ: Map<u64, HashSet<u64>>,
) -> bool {
    forall|q: u64|
        #[trigger] states.contains_key(q) ==> queued.contains(q) || succ.contains_key(q) || decoded_at(
            segs,
            q,
        ) is None
}

/// Every recorded successor has a state.
#[verifier::opaque]
pub open spec fn successors_have_states(succ: Map<u64, HashSet<u64>>, states: Map<u64, RegisterState>) -> bool {
    forall|p: u64, q: u64|
        succ.contains_key(p) && #[trigger] succ[p]@.contains(q) ==> #[trigger] states.contains_key(q)
}

/// Seeding keeps the worklist free of repeats and equal, as a set, to the
/// queued addresses, and keeps its front.
#[verifier::spinoff_prover]
proof fn lemma_seed_queue(wl0: Seq<u64>, iw0: Set<u64>, wl1: Seq<u64>, iw1: Set<u64>, addrs: Set<u64>)
    requires
        queue_ok(wl0, iw0),
        iw1 == iw0 + addrs,
        wl1.len() >= wl0.len(),
        wl1.take(wl0.len() as int) == wl0,
        wl1.skip(wl0.len() as int).no_duplicates(),
        forall|a: u64|
            #[trigger] wl1.skip(wl0.len() as int).contains(a) <==> (addrs.contains(a)
                && !iw0.contains(a)),
    ensures
        queue_ok(wl1, iw1),
        wl0.len() > 0 ==> wl1[0] == wl0[0],
{
    reveal(queue_ok);
    let n = wl0.len() as int;
    let new = wl1.skip(n);
    assert(wl1 =~= wl0 + new);
    if n > 0 {
        assert(wl1.take(n)[0] == wl1[0]);
    }
    assert forall|i: int, j: int| 0 <= i < wl1.len() && 0 <= j < wl1.len() && i != j implies wl1[i]
        != wl1[j] by {
        if i < n && j >= n {
            assert(new[j - n] == wl1[j]);
            assert(new.contains(wl1[j]));
            assert(wl0[i] == wl1[i]);
            assert(wl0.contains(wl1[i]));
        } else if j < n && i >= n {
            assert(new[i - n] == wl1[i]);
            assert(new.contains(wl1[i]));
            assert(wl0[j] == wl1[j]);
            assert(wl0.contains(wl1[j]));
        } else if i >= n && j >= n {
            assert(new[i - n] == wl1[i]);
            assert(new[j - n] == wl1[j]);
        } else {
            assert(wl0[i] == wl1[i]);
            assert(wl0[j] == wl1[j]);
        }
    }
    assert forall|x: u64| #[trigger] iw1.contains(x) <==> wl1.contains(x) by {
        if wl1.contains(x) {
            let j = choose|j: int| 0 <= j < wl1.len() && wl1[j] == x;
            if j < n {
                assert(wl0[j] == x);
                assert(wl0.contains(x));
            } else {
                assert(new[j - n] == x);
                assert(new.contains(x));
            }
        }
        if wl0.contains(x) {
            let j = choose|j: int| 0 <= j < wl0.len() && wl0[j] == x;
            assert(wl1[j] == x);
        }
        if new.contains(x) {
            let j = choose|j: int| 0 <= j < new.len() && new[j] == x;
            assert(wl1[j + n] == x);
        }
    }
}

/// Once nothing is queued, every successor that decodes, and every seeded
/// address that decodes, has been visited.
proof fn lemma_complete(
    segs: Seq<MemorySegment>,
    succ: Map<u64, HashSet<u64>>,
    states: Map<u64, RegisterState>,
    fe: Set<u64>,
    it: Set<u64>,
)
    requires
        pending_ok(segs, states, Set::empty(), succ),
        successors_have_states(succ, states),
        forall|a: u64| fe.contains(a) || it.contains(a) ==> #[trigger] states.contains_key(a),
    ensures
        closed_under_successors(segs, succ),
        forall|a: u64|
            (fe.contains(a) || it.contains(a)) && #[trigger] decoded_at(segs, a) is Some
                ==> succ.contains_key(a),
{
    reveal(pending_ok);
    reveal(successors_have_states);
    assert forall|p: u64, q: u64|
        succ.contains_key(p) && #[trigger] succ[p]@.contains(q) && decoded_at(segs, q) is Some
            implies succ.contains_key(q) by {
        assert(states.contains_key(q));
    }
    assert forall|a: u64|
        (fe.contains(a) || it.contains(a)) && #[trigger] decoded_at(segs, a) is Some
            implies succ.contains_key(a) by {
        assert(states.contains_key(a));
    }
}

/// Every tracked state is well formed.
pub open spec fn states_wf(m: Map<u64, RegisterState>) -> bool {
    forall|k: u64| #[trigger] m.contains_key(k) ==> m[k].wf()
}

/// A fresh register state: x0 is zero and every other register unknown.
pub open spec fn is_fresh(s: RegisterState) -> bool {
    &&& s.wf()
    &&& s.reg(0) == Some(seq![0u64])
    &&& forall|i: int| i != 0 ==> s.reg(i) == None::<Seq<u64>>
}

/// `pred` is the inverse relation of `succ`.
pub open spec fn inverse_of(succ: Map<u64, HashSet<u64>>, pred: Map<u64, HashSet<u64>>) -> bool {
    forall|p: u64, q: u64|
        #![trigger succ[p]@.contains(q)]
        #![trigger pred[q]@.contains(p)]
        (succ.contains_key(p) && succ[p]@.contains(q)) <==> (pred.contains_key(q)
            && pred[q]@.contains(p))
}

/// `pred` is the inverse of `succ` restricted to the PCs in `done`, plus the
/// pairs from `pc` to the successors in `got`.
pub open spec fn partial_inverse(
    succ: Map<u64, HashSet<u64>>,
    pred: Map<u64, HashSet<u64>>,
    done: Set<u64>,
    pc: u64,
    got: Set<u64>,
) -> bool {
    forall|p: u64, q: u64|
        #![trigger succ[p]@.contains(q)]
        #![trigger pred[q]@.contains(p)]
        ((done.contains(p) && succ.contains_key(p) && succ[p]@.contains(q)) || (p == pc
            && got.contains(q))) <==> (pred.contains_key(q) && pred[q]@.contains(p))
}

impl<'a> CfgAnalyzer<'a> {
    /// Queue `target` unless it is queued already.
    fn enqueue(target: u64, worklist: &mut VecDeque<u64>, in_worklist: &mut HashSet<u64>)
        ensures
            final(in_worklist)@ == old(in_worklist)@.insert(target),
            final(worklist)@ == if old(in_worklist)@.contains(target) {
                old(worklist)@
            } else {
                old(worklist)@.push(target)
            },
    {
        if !in_worklist.contains(&target) {
            worklist.push_back(target);
            in_worklist.insert(target);
        } else {
            assert(old(in_worklist)@.insert(target) =~= old(in_worklist)@);
        }
    }

    /// Seed the worklist with fresh states for the given addresses: each
    /// address not yet queued gets a fresh state and is queued once, in no
    /// particular order; everything else is kept.
    #[verifier::spinoff_prover]
    fn seed(
        addrs: &HashSet<u64>,
        states: &mut HashMap<u64, RegisterState>,
        worklist: &mut VecDeque<u64>,
        in_worklist: &mut HashSet<u64>,
    )
        requires
            states_wf(old(states)@),
        ensures
            states_wf(final(states)@),
            final(in_worklist)@ == old(in_worklist)@ + addrs@,
            final(worklist)@.len() >= old(worklist)@.len(),
            final(worklist)@.take(old(worklist)@.len() as int) == old(worklist)@,
            final(worklist)@.skip(old(worklist)@.len() as int).no_duplicates(),
            forall|a: u64|
                #[trigger] final(worklist)@.skip(old(worklist)@.len() as int).contains(a) <==> (
                addrs@.contains(a) && !old(in_worklist)@.contains(a)),
            forall|a: u64|
                #[trigger] final(states)@.contains_key(a) <==> (old(states)@.contains_key(a) || (
                addrs@.contains(a) && !old(in_worklist)@.contains(a))),
            forall|a: u64|
                addrs@.contains(a) && !old(in_worklist)@.contains(a) ==> is_fresh(
                    #[trigger] final(states)@[a],
                ),
            forall|a: u64|
                old(states)@.contains_key(a) && !(addrs@.contains(a) && !old(in_worklist)@.contains(
                    a,
                )) ==> #[trigger] final(states)@[a] == old(states)@[a],
    {
        let ghost w0 = worklist@;
        let ghost q0 = in_worklist@;
        let ghost s0 = states@;
        let ghost mut added: Seq<u64> = Seq::empty();
        let elems = set_elements(addrs);
        let mut k: usize = 0;
        while k < elems.len()
            invariant
                k <= elems@.len(),
                elems@.no_duplicates(),
                elems@.to_set() == addrs@,
                states_wf(states@),
                worklist@ == w0 + added,
                added.no_duplicates(),
                forall|x: u64|
                    #[trigger] in_worklist@.contains(x) <==> (q0.contains(x) || exists|i: int|
                        0 <= i < k && elems@[i] == x),
                forall|x: u64|
                    #[trigger] added.contains(x) <==> (!q0.contains(x) && exists|i: int|
                        0 <= i < k && elems@[i] == x),
                forall|x: u64|
                    #[trigger] states@.contains_key(x) <==> (s0.contains_key(x) || added.contains(x)),
                forall|x: u64| added.contains(x) ==> is_fresh(#[trigger] states@[x]),
                forall|x: u64|
                    s0.contains_key(x) && !added.contains(x) ==> #[trigger] states@[x] == s0[x],
            decreases elems.len() - k,
        {
            let addr = elems[k];
            proof {
                assert forall|i: int| 0 <= i < k implies elems@[i] != addr by {
                    assert(elems@[i] != elems@[k as int]);
                }
            }
            if !in_worklist.contains(&addr) {
                let st = RegisterState::new();
                states.insert(addr, st);
                worklist.push_back(addr);
                in_worklist.insert(addr);
                proof {
                    let prev = added;
                    added = added.push(addr);
                    assert forall|x: u64| #[trigger] added.contains(x) <==> (prev.contains(x) || x == addr) by {
                        if x == addr {
                            assert(added[added.len() - 1] == x);
                        }
                        if prev.contains(x) {
                            let j = choose|j: int| 0 <= j < prev.len() && prev[j] == x;
                            assert(added[j] == x);
                        }
                        if added.contains(x) && x != addr {
                            let j = choose|j: int| 0 <= j < added.len() && added[j] == x;
                            assert(prev[j] == x);
                        }
                    }
                    assert forall|x: u64| #[trigger] added.contains(x) <==> (!q0.contains(x) && exists|i: int|
                        0 <= i < k + 1 && elems@[i] == x) by {
                        if x == addr {
                            assert(elems@[k as int] == x);
                        } else if exists|i: int| 0 <= i < k + 1 && elems@[i] == x {
                            let i = choose|i: int| 0 <= i < k + 1 && elems@[i] == x;
                            assert(i < k);
                        }
                    }
                    assert(!prev.contains(addr));
                }
            } else {
                proof {
                    assert forall|x: u64| #[trigger] added.contains(x) <==> (!q0.contains(x) && exists|i: int|
                        0 <= i < k + 1 && elems@[i] == x) by {
                        if x == addr {
                            assert(elems@[k as int] == x);
                        } else if exists|i: int| 0 <= i < k + 1 && elems@[i] == x {
                            let i = choose|i: int| 0 <= i < k + 1 && elems@[i] == x;
                            assert(i < k);
                        }
                    }
                }
            }
            proof {
                assert forall|x: u64| #[trigger] in_worklist@.contains(x) <==> (q0.contains(x) || exists|i: int|
                    0 <= i < k + 1 && elems@[i] == x) by {
                    if exists|i: int| 0 <= i < k + 1 && elems@[i] == x {
                        let i = choose|i: int| 0 <= i < k + 1 && elems@[i] == x;
                        if i == k {
                            assert(x == addr);
                        }
                    }
                }
            }
            k += 1;
        }
        proof {
            assert(worklist@.take(w0.len() as int) =~= w0);
            assert(worklist@.skip(w0.len() as int) =~= added);
            assert forall|x: u64| (exists|i: int| 0 <= i < k && elems@[i] == x) <==> #[trigger] addrs@.contains(x) by {
                if addrs@.contains(x) {
                    assert(elems@.to_set().contains(x));
                    assert(elems@.contains(x));
                }
            }
            assert(in_worklist@ =~= q0 + addrs@);
        }
    }

    /// Take the front of the worklist off it and off the queued set.
    fn pop_next(worklist: &mut VecDeque<u64>, in_worklist: &mut HashSet<u64>) -> (r: Option<u64>)
        requires
            queue_ok(old(worklist)@, old(in_worklist)@),
        ensures
            r is None ==> old(worklist)@.len() == 0 && final(worklist)@ == old(worklist)@
                && final(in_worklist)@ == old(in_worklist)@,
            r matches Some(pc) ==> {
                &&& old(worklist)@.len() > 0
                &&& pc == old(worklist)@[0]
                &&& final(in_worklist)@ == old(in_worklist)@.remove(pc)
                &&& queue_ok(final(worklist)@, final(in_worklist)@)
            },
    {
        proof {
            reveal(queue_ok);
        }
        let ghost wl0 = worklist@;
        let pc = match worklist.pop_front() {
            Some(p) => p,
            None => {
                return None;
            },
        };
        in_worklist.remove(&pc);
        proof {
            assert(wl0 =~= seq![pc] + worklist@);
            assert forall|i: int, j: int|
                0 <= i < worklist@.len() && 0 <= j < worklist@.len() && i != j
                    implies worklist@[i] != worklist@[j] by {
                assert(wl0[i + 1] == worklist@[i]);
                assert(wl0[j + 1] == worklist@[j]);
            }
            assert forall|x: u64| #[trigger] in_worklist@.contains(x) <==> worklist@.contains(x) by {
                if worklist@.contains(x) {
                    let j = choose|j: int| 0 <= j < worklist@.len() && worklist@[j] == x;
                    assert(wl0[j + 1] == x);
                    assert(wl0.contains(x));
                    if x == pc {
                        assert(wl0[0] == wl0[j + 1]);
                    }
                }
                if wl0.contains(x) && x != pc {
                    let j = choose|j: int| 0 <= j < wl0.len() && wl0[j] == x;
                    assert(worklist@[j - 1] == x);
                }
            }
        }
        Some(pc)
    }

    /// Give each target a state (merging into the one it has) and queue
    /// those whose state is new or changed.
    #[verifier::spinoff_prover]
    fn enqueue_targets(
        targets: &Vec<u64>,
        state_out: &RegisterState,
        states: &mut HashMap<u64, RegisterState>,
        worklist: &mut VecDeque<u64>,
        in_worklist: &mut HashSet<u64>,
    )
        requires
            state_out.wf(),
            states_wf(old(states)@),
            queue_ok(old(worklist)@, old(in_worklist)@),
        ensures
            states_wf(final(states)@),
            queue_ok(final(worklist)@, final(in_worklist)@),
            old(in_worklist)@.subset_of(final(in_worklist)@),
            forall|q: u64| old(states)@.contains_key(q) ==> #[trigger] final(states)@.contains_key(q),
            forall|j: int| 0 <= j < targets@.len() ==> #[trigger] final(states)@.contains_key(targets@[j]),
            forall|q: u64|
                #[trigger] final(states)@.contains_key(q) ==> old(states)@.contains_key(q)
                    || final(in_worklist)@.contains(q),
            forall|q: u64|
                old(states)@.contains_key(q) && !final(in_worklist)@.contains(q) ==> same_regs(
                    #[trigger] final(states)@[q],
                    old(states)@[q],
                ),
            forall|j: int|
                0 <= j < targets@.len() ==> covers(#[trigger] final(states)@[targets@[j]], *state_out),
            forall|q: u64|
                old(states)@.contains_key(q) ==> covers(#[trigger] final(states)@[q], old(states)@[q]),
            forall|q: u64, i: int, v: u64|
                1 <= i < 32 && #[trigger] known_value(final(states)@, q, i, v) ==> known_value(
                    old(states)@,
                    q,
                    i,
                    v,
                ) || (targets@.contains(q) && match possible_reg(*state_out, i) {
                    Some(w) => w.contains(v),
                    None => false,
                }),
    {
        let ghost states0 = states@;
        let ghost iw0 = in_worklist@;
        proof {
            assert forall|q: u64| states0.contains_key(q) implies covers(
                #[trigger] states@[q],
                states0[q],
            ) by {
                lemma_covers_refl(states0[q]);
            }
        }
        let mut k: usize = 0;
        while k < targets.len()
            invariant
                k <= targets@.len(),
                state_out.wf(),
                states_wf(states@),
                queue_ok(worklist@, in_worklist@),
                iw0.subset_of(in_worklist@),
                forall|q: u64| states0.contains_key(q) ==> #[trigger] states@.contains_key(q),
                forall|j: int| 0 <= j < k ==> #[trigger] states@.contains_key(targets@[j]),
                forall|q: u64|
                    #[trigger] states@.contains_key(q) ==> states0.contains_key(q)
                        || in_worklist@.contains(q),
                forall|q: u64|
                    states0.contains_key(q) && !in_worklist@.contains(q) ==> same_regs(
                        #[trigger] states@[q],
                        states0[q],
                    ),
                forall|j: int| 0 <= j < k ==> covers(#[trigger] states@[targets@[j]], *state_out),
                forall|q: u64| states0.contains_key(q) ==> covers(#[trigger] states@[q], states0[q]),
                forall|q: u64, i: int, v: u64|
                    1 <= i < 32 && #[trigger] known_value(states@, q, i, v) ==> known_value(
                        states0,
                        q,
                        i,
                        v,
                    ) || (targets@.contains(q) && match possible_reg(*state_out, i) {
                        Some(w) => w.contains(v),
                        None => false,
                    }),
            decreases targets.len() - k,
        {
            let target = targets[k];
            let ghost wl1 = worklist@;
            let ghost iw1 = in_worklist@;
            let ghost st1 = states@;
            match states.remove(&target) {
                Some(existing) => {
                    let mut merged = existing;
                    let changed = merged.merge(state_out);
                    proof {
                        lemma_merge_covers(st1[target], *state_out, merged);
                    }
                    states.insert(target, merged);
                    if changed {
                        Self::enqueue(target, worklist, in_worklist);
                    }
                },
                None => {
                    let fresh = state_out.clone();
                    proof {
                        lemma_covers_refl(*state_out);
                        assert(covers(fresh, *state_out)) by {
                            assert forall|i: int| 1 <= i < 32 implies #[trigger] join(
                                possible(fresh.reg(i)),
                                possible(state_out.reg(i)),
                            ) == possible(fresh.reg(i)) by {
                                assert(fresh.reg(i) == state_out.reg(i));
                                assert(join(possible(state_out.reg(i)), possible(state_out.reg(i)))
                                    == possible(state_out.reg(i)));
                            }
                        }
                    }
                    states.insert(target, fresh);
                    Self::enqueue(target, worklist, in_worklist);
                },
            }
            proof {
                assert forall|j: int| 0 <= j < k + 1 implies covers(
                    #[trigger] states@[targets@[j]],
                    *state_out,
                ) by {
                    if targets@[j] == target {
                        if st1.contains_key(target) && j < k {
                            lemma_covers_trans(*state_out, st1[target], states@[target]);
                        }
                    } else {
                        assert(states@[targets@[j]] == st1[targets@[j]]);
                    }
                }
                assert forall|q: u64| states0.contains_key(q) implies covers(
                    #[trigger] states@[q],
                    states0[q],
                ) by {
                    if q == target {
                        lemma_covers_trans(states0[q], st1[q], states@[q]);
                    } else {
                        assert(states@[q] == st1[q]);
                    }
                }
                assert forall|q: u64, i: int, v: u64|
                    1 <= i < 32 && #[trigger] known_value(states@, q, i, v) implies known_value(
                        states0,
                        q,
                        i,
                        v,
                    ) || (targets@.contains(q) && match possible_reg(*state_out, i) {
                        Some(w) => w.contains(v),
                        None => false,
                    }) by {
                    if q == target {
                        assert(targets@[k as int] == target);
                        if st1.contains_key(target) && known_value(st1, q, i, v) {
                        } else if st1.contains_key(target) {
                            assert(possible(states@[q].reg(i)) == join(
                                possible(st1[q].reg(i)),
                                possible(state_out.reg(i)),
                            ));
                        }
                    } else {
                        assert(states@[q] == st1[q]);
                        assert(known_value(st1, q, i, v));
                    }
                }
            }
            proof {
                reveal(queue_ok);
                if !iw1.contains(target) && in_worklist@.contains(target) {
                    assert(!wl1.contains(target));
                    assert(worklist@ == wl1.push(target));
                    assert forall|i: int, j: int|
                        0 <= i < worklist@.len() && 0 <= j < worklist@.len() && i != j
                            implies worklist@[i] != worklist@[j] by {
                        if i == wl1.len() as int && j < wl1.len() {
                            assert(wl1[j] == worklist@[j]);
                        }
                        if j == wl1.len() as int && i < wl1.len() {
                            assert(wl1[i] == worklist@[i]);
                        }
                    }
                    assert forall|x: u64| #[trigger] in_worklist@.contains(x) <==> worklist@.contains(x) by {
                        if worklist@.contains(x) && x != target {
                            let j = choose|j: int| 0 <= j < worklist@.len() && worklist@[j] == x;
                            assert(wl1[j] == x);
                        }
                        if wl1.contains(x) {
                            let j = choose|j: int| 0 <= j < wl1.len() && wl1[j] == x;
                            assert(worklist@[j] == x);
                        }
                        if x == target {
                            assert(worklist@[wl1.len() as int] == x);
                        }
                    }
                }
            }
            k += 1;
        }
    }

    /// Add the successors found at `pc` to the successor map.
    #[verifier::rlimit(60)]
    #[verifier::spinoff_prover]
    fn record_successors(
        &self,
        successors: &mut HashMap<u64, HashSet<u64>>,
        pc: u64,
        succs: &HashSet<u64>,
        decoded: &CfgInstr,
        size: u8,
    )
        requires
            successors_ok(self.segments(), self.base(), self.end(), old(successors)@),
            decoded_at(self.segments(), pc) == Some((*decoded, size)),
            decoded.kind != CfgInstrKind::Jalr ==> succs@ == direct_successors(
                self.base(),
                self.end(),
                pc,
                size,
                *decoded,
            ),
        ensures
            successors_ok(self.segments(), self.base(), self.end(), final(successors)@),
            links_ok(self.segments(), old(successors)@) && (decoded.kind == CfgInstrKind::Jalr
                && decoded.rd != 0 && reg_ok(decoded.rs1) ==> succs@.contains(next_pc(pc, size)))
                ==> links_ok(self.segments(), final(successors)@),
            final(successors)@.contains_key(pc),
            forall|q: u64| old(successors)@.contains_key(q) ==> #[trigger] final(successors)@.contains_key(q),
            forall|p: u64, q: u64|
                final(successors)@.contains_key(p) && #[trigger] final(successors)@[p]@.contains(q)
                    ==> (old(successors)@.contains_key(p) && old(successors)@[p]@.contains(q)) || (p
                    == pc && succs@.contains(q)),
            succs@.subset_of(final(successors)@[pc]@),
            forall|p: u64|
                old(successors)@.contains_key(p) ==> old(successors)@[p]@.subset_of(
                    #[trigger] final(successors)@[p]@,
                ),
            forall|q: u64|
                #[trigger] final(successors)@.contains_key(q) ==> old(successors)@.contains_key(q)
                    || q == pc,
    {
        let ghost before = successors@;
        multimap_extend(successors, pc, succs);
        proof {
            lemma_extend_view(before, successors@, pc, succs@);
            lemma_links_extend(self.segments(), before, successors@, pc, succs@);
            lemma_successors_ok_extend(
                self.segments(),
                self.base(),
                self.end(),
                before,
                successors@,
                pc,
                succs@,
            );
        }
    }

    /// The initial worklist: the entry point first, then the function
    /// entries and internal targets not queued yet, each with a fresh state.
    #[verifier::spinoff_prover]
    fn init_worklist(
        &self,
        function_entries: &HashSet<u64>,
        internal_targets: &HashSet<u64>,
    ) -> (r: (HashMap<u64, RegisterState>, VecDeque<u64>, HashSet<u64>))
        ensures
            states_wf(r.0@),
            queue_ok(r.1@, r.2@),
            r.1@.len() > 0,
            r.1@[0] == self.entry(),
            r.0@.contains_key(self.entry()),
            forall|a: u64|
                function_entries@.contains(a) || internal_targets@.contains(a)
                    ==> #[trigger] r.0@.contains_key(a),
            forall|q: u64| #[trigger] r.0@.contains_key(q) ==> r.2@.contains(q),
            forall|q: u64| #[trigger] r.0@.contains_key(q) ==> is_fresh(r.0@[q]),
    {
        let mut states: HashMap<u64, RegisterState> = HashMap::new();
        let mut worklist: VecDeque<u64> = VecDeque::new();
        let mut in_worklist: HashSet<u64> = HashSet::new();
        let entry = self.code.entry_point;
        states.insert(entry, RegisterState::new());
        worklist.push_back(entry);
        in_worklist.insert(entry);
        proof {
            reveal(queue_ok);
            assert(worklist@ =~= seq![entry]);
            assert forall|x: u64| #[trigger] in_worklist@.contains(x) <==> worklist@.contains(x) by {
                if worklist@.contains(x) {
                    assert(worklist@[0] == x);
                }
                if x == entry {
                    assert(worklist@[0] == x);
                }
            }
        }
        let ghost wl0 = worklist@;
        let ghost iw0 = in_worklist@;
        let ghost st0 = states@;
        Self::seed(function_entries, &mut states, &mut worklist, &mut in_worklist);
        proof {
            lemma_seed_queue(wl0, iw0, worklist@, in_worklist@, function_entries@);
        }
        let ghost wl1 = worklist@;
        let ghost iw1 = in_worklist@;
        let ghost st1 = states@;
        Self::seed(internal_targets, &mut states, &mut worklist, &mut in_worklist);
        proof {
            lemma_seed_queue(wl1, iw1, worklist@, in_worklist@, internal_targets@);
            assert(states@.contains_key(entry)) by {
                assert(st0.contains_key(entry));
                assert(st1.contains_key(entry));
            }
            assert forall|a: u64| function_entries@.contains(a) || internal_targets@.contains(a)
                implies #[trigger] states@.contains_key(a) by {
                if function_entries@.contains(a) {
                    assert(st1.contains_key(a) || iw0.contains(a));
                    if iw0.contains(a) {
                        assert(a == entry);
                    }
                }
                if internal_targets@.contains(a) && !iw1.contains(a) {
                    assert(states@.contains_key(a));
                }
                if internal_targets@.contains(a) && iw1.contains(a) {
                    if iw0.contains(a) {
                        assert(a == entry);
                    } else {
                        assert(function_entries@.contains(a));
                        assert(st1.contains_key(a));
                    }
                }
            }
            assert forall|q: u64| #[trigger] states@.contains_key(q) implies is_fresh(states@[q]) by {
                if st1.contains_key(q) && !(internal_targets@.contains(q) && !iw1.contains(q)) {
                    if st0.contains_key(q) && !(function_entries@.contains(q) && !iw0.contains(q)) {
                        assert(q == entry);
                    }
                }
            }
            assert forall|q: u64| #[trigger] states@.contains_key(q) implies in_worklist@.contains(q) by {
                if st1.contains_key(q) && !(internal_targets@.contains(q) && !iw1.contains(q)) {
                    if st0.contains_key(q) && !(function_entries@.contains(q) && !iw0.contains(q)) {
                        assert(q == entry);
                    }
                }
            }
        }

        (states, worklist, in_worklist)
    }

    /// Visit a pc taken off the worklist: with its state and instruction,
    /// find its successors, pass the state on to them (queueing those whose
    /// state is new or changed), and record the successors.
    #[verifier::rlimit(80)]
    #[verifier::spinoff_prover]
    fn visit(
        &self,
        pc: u64,
        states: &mut HashMap<u64, RegisterState>,
        worklist: &mut VecDeque<u64>,
        in_worklist: &mut HashSet<u64>,
        successors: &mut HashMap<u64, HashSet<u64>>,
        function_entries: &HashSet<u64>,
        return_sites: &HashSet<u64>,
        sorted_function_entries: &[u64],
        func_internal_targets: &HashMap<u64, HashSet<u64>>,
        call_return_map: &HashMap<u64, HashSet<u64>>,
    )
        requires
            self.analyzable(),
            crate::sorted::sorted(sorted_function_entries@),
            states_wf(old(states)@),
            successors_ok(self.segments(), self.base(), self.end(), old(successors)@),
            queue_ok(old(worklist)@, old(in_worklist)@),
            pending_ok(
                self.segments(),
                old(states)@,
                old(in_worklist)@.insert(pc),
                old(successors)@,
            ),
            successors_have_states(old(successors)@, old(states)@),
            links_ok(self.segments(), old(successors)@),
            recorded_have_states(old(successors)@, old(states)@),
            jalr_settled(
                self.segments(),
                self.base(),
                self.end(),
                old(successors)@,
                old(states)@,
                old(in_worklist)@.insert(pc),
                function_entries@,
                return_sites@,
                sorted_function_entries@,
                func_internal_targets@,
                call_return_map@,
            ),
            flow_settled(
                self.segments(),
                self.base(),
                self.end(),
                old(successors)@,
                old(states)@,
                old(in_worklist)@.insert(pc),
                function_entries@,
                return_sites@,
                sorted_function_entries@,
                func_internal_targets@,
                call_return_map@,
            ),
            jalr_bounded(
                self.segments(),
                self.base(),
                self.end(),
                old(successors)@,
                old(states)@,
                function_entries@,
                return_sites@,
                sorted_function_entries@,
                func_internal_targets@,
                call_return_map@,
            ),
            values_sourced(self.segments(), old(successors)@, old(states)@),
        ensures
            values_sourced(self.segments(), final(successors)@, final(states)@),
            flow_settled(
                self.segments(),
                self.base(),
                self.end(),
                final(successors)@,
                final(states)@,
                final(in_worklist)@,
                function_entries@,
                return_sites@,
                sorted_function_entries@,
                func_internal_targets@,
                call_return_map@,
            ),
            jalr_bounded(
                self.segments(),
                self.base(),
                self.end(),
                final(successors)@,
                final(states)@,
                function_entries@,
                return_sites@,
                sorted_function_entries@,
                func_internal_targets@,
                call_return_map@,
            ),
            links_ok(self.segments(), final(successors)@),
            recorded_have_states(final(successors)@, final(states)@),
            jalr_settled(
                self.segments(),
                self.base(),
                self.end(),
                final(successors)@,
                final(states)@,
                final(in_worklist)@,
                function_entries@,
                return_sites@,
                sorted_function_entries@,
                func_internal_targets@,
                call_return_map@,
            ),
            states_wf(final(states)@),
            successors_ok(self.segments(), self.base(), self.end(), final(successors)@),
            queue_ok(final(worklist)@, final(in_worklist)@),
            pending_ok(self.segments(), final(states)@, final(in_worklist)@, final(successors)@),
            successors_have_states(final(successors)@, final(states)@),
            forall|q: u64| old(states)@.contains_key(q) ==> #[trigger] final(states)@.contains_key(q),
            forall|q: u64|
                old(successors)@.contains_key(q) ==> #[trigger] final(successors)@.contains_key(q),
            old(states)@.contains_key(pc) && decoded_at(self.segments(), pc) is Some
                ==> final(successors)@.contains_key(pc),
    {
        proof {
            reveal(queue_ok);
            reveal(pending_ok);
            reveal(successors_have_states);
        }
        let ghost s0 = states@;
        let ghost i0 = in_worklist@;
        let ghost c0 = successors@;
        let state = match states.get(&pc) {
            Some(st) => st.clone(),
            None => {
                proof {
                    reveal(recorded_have_states);
                    reveal(jalr_settled);
                    reveal(flow_settled);
                    assert(!c0.contains_key(pc));
                }
                return ;
            },
        };
        let (decoded, size) = match self.fetch(pc) {
            Some(x) => x,
            None => {
                proof {
                    reveal(jalr_settled);
                    reveal(flow_settled);
                }
                return ;
            },
        };
        let succs = self.get_successors(
            pc,
            size,
            &decoded,
            &state,
            function_entries,
            return_sites,
            sorted_function_entries,
            func_internal_targets,
            call_return_map,
        );
        let ghost state0 = state;
        let state_out = self.transfer(pc, size, &decoded, state);
        let targets = set_elements(&succs);
        let ghost states0 = states@;
        let ghost iw0 = in_worklist@;
        let ghost succ0 = successors@;
        Self::enqueue_targets(&targets, &state_out, states, worklist, in_worklist);
        let ghost states1 = states@;
        self.record_successors(successors, pc, &succs, &decoded, size);
        proof {
            assert(same_regs(state0, states0[pc]));
            lemma_targets_cover(
                self.segments(),
                pc,
                size,
                decoded,
                state0,
                state_out,
                targets@,
                succs@,
                states1,
            );
            lemma_flow_after_visit(
                self.segments(),
                self.base(),
                self.end(),
                succ0,
                successors@,
                states0,
                states1,
                iw0,
                in_worklist@,
                pc,
                decoded,
                size,
                state0,
                succs@,
                function_entries@,
                return_sites@,
                sorted_function_entries@,
                func_internal_targets@,
                call_return_map@,
            );
            lemma_sourced_after_visit(
                self.segments(),
                succ0,
                successors@,
                states0,
                states1,
                pc,
                decoded,
                size,
                state0,
                state_out,
                targets@,
                succs@,
            );
            lemma_bounded_after_visit(
                self.segments(),
                self.base(),
                self.end(),
                succ0,
                successors@,
                states0,
                states1,
                pc,
                decoded,
                size,
                state0,
                succs@,
                function_entries@,
                return_sites@,
                sorted_function_entries@,
                func_internal_targets@,
                call_return_map@,
            );
        }
        proof {
            assert forall|q: u64| succs@.contains(q) implies #[trigger] states@.contains_key(q) by {
                assert(targets@.to_set().contains(q));
                assert(targets@.contains(q));
                let j = choose|j: int| 0 <= j < targets@.len() && targets@[j] == q;
                assert(states@.contains_key(targets@[j]));
            }
            assert forall|q: u64| #[trigger] states@.contains_key(q) implies in_worklist@.contains(q)
                || successors@.contains_key(q) || decoded_at(self.segments(), q) is None by {
                if states0.contains_key(q) && q != pc {
                    assert(iw0.insert(pc).contains(q) || succ0.contains_key(q) || decoded_at(
                        self.segments(),
                        q,
                    ) is None);
                }
            }
            lemma_settled_after_visit(
                self.segments(),
                self.base(),
                self.end(),
                succ0,
                successors@,
                states0,
                states@,
                iw0,
                in_worklist@,
                pc,
                decoded,
                size,
                state,
                succs@,
                function_entries@,
                return_sites@,
                sorted_function_entries@,
                func_internal_targets@,
                call_return_map@,
            );
        }
    }

    /// Phase 2: propagate register states along the control flow until
    /// nothing changes (or the round bound is reached), recording the
    /// successors found for every instruction visited. Returns the successor
    /// map and whether the propagation ran to completion: then every
    /// successor that decodes, and every seeded address that decodes, has
    /// successors of its own. The entry point is visited first, so it is
    /// recorded whenever it decodes and the code range is not empty.
    #[verifier::rlimit(100)]
    #[verifier::spinoff_prover]
    fn worklist_analysis(
        &self,
        function_entries: &HashSet<u64>,
        internal_targets: &HashSet<u64>,
        return_sites: &HashSet<u64>,
        sorted_function_entries: &[u64],
        func_internal_targets: &HashMap<u64, HashSet<u64>>,
        call_return_map: &HashMap<u64, HashSet<u64>>,
    ) -> (r: (HashMap<u64, HashSet<u64>>, bool, usize, HashMap<u64, RegisterState>))
        requires
            self.analyzable(),
            crate::sorted::sorted(sorted_function_entries@),
        ensures
            successors_ok(self.segments(), self.base(), self.end(), r.0@),
            links_ok(self.segments(), r.0@),
            self.base() < self.end() && decoded_at(self.segments(), self.entry()) is Some
                ==> r.0@.contains_key(self.entry()),
            r.1 ==> closed_under_successors(self.segments(), r.0@),
            r.2 <= (self.end() - self.base()) * MAX_ITERATIONS_MULTIPLIER,
            !r.1 ==> r.2 == (self.end() - self.base()) * MAX_ITERATIONS_MULTIPLIER,
            states_wf(r.3@),
            recorded_have_states(r.0@, r.3@),
            r.1 ==> jalr_settled(
                self.segments(),
                self.base(),
                self.end(),
                r.0@,
                r.3@,
                Set::empty(),
                function_entries@,
                return_sites@,
                sorted_function_entries@,
                func_internal_targets@,
                call_return_map@,
            ),
            r.1 ==> forall|a: u64|
                (function_entries@.contains(a) || internal_targets@.contains(a)) && #[trigger] decoded_at(
                    self.segments(),
                    a,
                ) is Some ==> r.0@.contains_key(a),
            r.1 ==> flow_settled(
                self.segments(),
                self.base(),
                self.end(),
                r.0@,
                r.3@,
                Set::empty(),
                function_entries@,
                return_sites@,
                sorted_function_entries@,
                func_internal_targets@,
                call_return_map@,
            ),
            values_sourced(self.segments(), r.0@, r.3@),
            jalr_bounded(
                self.segments(),
                self.base(),
                self.end(),
                r.0@,
                r.3@,
                function_entries@,
                return_sites@,
                sorted_function_entries@,
                func_internal_targets@,
                call_return_map@,
            ),
    {
        let (mut states, mut worklist, mut in_worklist) = self.init_worklist(
            function_entries,
            internal_targets,
        );
        let mut successors: HashMap<u64, HashSet<u64>> = HashMap::new();
        let entry = self.code.entry_point;
        let max_iterations: usize = ((self.code.end_address - self.code.base_address) as usize)
            * MAX_ITERATIONS_MULTIPLIER;
        let mut iterations: usize = 0;
        let mut complete = false;
        proof {
            reveal(pending_ok);
            reveal(successors_have_states);
            reveal(recorded_have_states);
            reveal(jalr_settled);
            reveal(flow_settled);
            reveal(jalr_bounded);
            reveal(values_sourced);
        }
        loop
            invariant_except_break
                queue_ok(worklist@, in_worklist@),
                pending_ok(self.segments(), states@, in_worklist@, successors@),
                iterations == 0 ==> worklist@.len() > 0 && worklist@[0] == entry,
                !complete,
                flow_settled(
                    self.segments(),
                    self.base(),
                    self.end(),
                    successors@,
                    states@,
                    in_worklist@,
                    function_entries@,
                    return_sites@,
                    sorted_function_entries@,
                    func_internal_targets@,
                    call_return_map@,
                ),
                jalr_settled(
                    self.segments(),
                    self.base(),
                    self.end(),
                    successors@,
                    states@,
                    in_worklist@,
                    function_entries@,
                    return_sites@,
                    sorted_function_entries@,
                    func_internal_targets@,
                    call_return_map@,
                ),
            invariant
                self.analyzable(),
                entry == self.entry(),
                crate::sorted::sorted(sorted_function_entries@),
                max_iterations < usize::MAX,
                max_iterations == (self.end() - self.base()) * MAX_ITERATIONS_MULTIPLIER,
                iterations <= max_iterations,
                states_wf(states@),
                successors_ok(self.segments(), self.base(), self.end(), successors@),
                states@.contains_key(entry),
                forall|a: u64|
                    function_entries@.contains(a) || internal_targets@.contains(a)
                        ==> #[trigger] states@.contains_key(a),
                successors_have_states(successors@, states@),
                links_ok(self.segments(), successors@),
                recorded_have_states(successors@, states@),
                iterations > 0 && decoded_at(self.segments(), entry) is Some
                    ==> successors@.contains_key(entry),
                values_sourced(self.segments(), successors@, states@),
                jalr_bounded(
                    self.segments(),
                    self.base(),
                    self.end(),
                    successors@,
                    states@,
                    function_entries@,
                    return_sites@,
                    sorted_function_entries@,
                    func_internal_targets@,
                    call_return_map@,
                ),
            ensures
                values_sourced(self.segments(), successors@, states@),
                jalr_bounded(
                    self.segments(),
                    self.base(),
                    self.end(),
                    successors@,
                    states@,
                    function_entries@,
                    return_sites@,
                    sorted_function_entries@,
                    func_internal_targets@,
                    call_return_map@,
                ),
                complete ==> flow_settled(
                    self.segments(),
                    self.base(),
                    self.end(),
                    successors@,
                    states@,
                    Set::empty(),
                    function_entries@,
                    return_sites@,
                    sorted_function_entries@,
                    func_internal_targets@,
                    call_return_map@,
                ),
                recorded_have_states(successors@, states@),
                states_wf(states@),
                iterations <= max_iterations,
                !complete ==> iterations == max_iterations,
                complete ==> jalr_settled(
                    self.segments(),
                    self.base(),
                    self.end(),
                    successors@,
                    states@,
                    Set::empty(),
                    function_entries@,
                    return_sites@,
                    sorted_function_entries@,
                    func_internal_targets@,
                    call_return_map@,
                ),
                links_ok(self.segments(), successors@),
                successors_ok(self.segments(), self.base(), self.end(), successors@),
                max_iterations > 0 ==> iterations > 0,
                iterations > 0 && decoded_at(self.segments(), entry) is Some
                    ==> successors@.contains_key(entry),
                forall|a: u64|
                    function_entries@.contains(a) || internal_targets@.contains(a)
                        ==> #[trigger] states@.contains_key(a),
                successors_have_states(successors@, states@),
                complete ==> pending_ok(self.segments(), states@, Set::empty(), successors@),
            decreases max_iterations - iterations,
        {
            let ghost iw_before = in_worklist@;
            let pc = match Self::pop_next(&mut worklist, &mut in_worklist) {
                Some(p) => p,
                None => {
                    complete = true;
                    proof {
                        reveal(queue_ok);
                        reveal(pending_ok);
                        assert(in_worklist@ =~= Set::<u64>::empty());
                    }
                    break;
                },
            };
            if iterations >= max_iterations {
                break;
            }
            proof {
                reveal(queue_ok);
                assert(in_worklist@.insert(pc) =~= iw_before);
            }
            iterations += 1;
            self.visit(
                pc,
                &mut states,
                &mut worklist,
                &mut in_worklist,
                &mut successors,
                function_entries,
                return_sites,
                sorted_function_entries,
                func_internal_targets,
                call_return_map,
            );
        }
        proof {
            if complete {
                lemma_complete(self.segments(), successors@, states@, function_entries@, internal_targets@);
            }
        }
        (successors, complete, iterations, states)
    }

    /// Phase 2 with its inputs prepared: the function entries sorted, the
    /// internal targets grouped by function, then the worklist propagation.
    #[verifier::rlimit(80)]
    #[verifier::spinoff_prover]
    fn propagate(
        &self,
        function_entries: &HashSet<u64>,
        internal_targets: &HashSet<u64>,
        return_sites: &HashSet<u64>,
        call_return_map: &HashMap<u64, HashSet<u64>>,
    ) -> (r: (Vec<u64>, HashMap<u64, HashSet<u64>>, bool, usize, HashMap<u64, RegisterState>))
        requires
            self.analyzable(),
        ensures
            strictly_sorted(r.0@),
            r.0@.to_set() == function_entries@,
            successors_ok(self.segments(), self.base(), self.end(), r.1@),
            links_ok(self.segments(), r.1@),
            self.base() < self.end() && decoded_at(self.segments(), self.entry()) is Some
                ==> r.1@.contains_key(self.entry()),
            r.2 ==> closed_under_successors(self.segments(), r.1@),
            r.2 ==> forall|a: u64|
                (function_entries@.contains(a) || internal_targets@.contains(a)) && #[trigger] decoded_at(
                    self.segments(),
                    a,
                ) is Some ==> r.1@.contains_key(a),
            r.3 <= (self.end() - self.base()) * MAX_ITERATIONS_MULTIPLIER,
            !r.2 ==> r.3 == (self.end() - self.base()) * MAX_ITERATIONS_MULTIPLIER,
            forall|pc: u64| #[trigger] r.1@.contains_key(pc) ==> r.4@.contains_key(pc),
            r.2 ==> forall|pc: u64|
                #[trigger] r.1@.contains_key(pc) ==> match decoded_at(self.segments(), pc) {
                    Some((d, size)) => d.kind == CfgInstrKind::Jalr ==> indirect_successors(
                        self.base(),
                        self.end(),
                        pc,
                        size,
                        d,
                        r.4@[pc],
                        function_entries@,
                        internal_targets@,
                        return_sites@,
                        call_return_map@,
                    ).subset_of(r.1@[pc]@),
                    None => true,
                },
            states_wf(r.4@),
            values_sourced(self.segments(), r.1@, r.4@),
            r.2 ==> self.states_passed_on(
                r.1@,
                r.4@,
                function_entries@,
                internal_targets@,
                return_sites@,
                call_return_map@,
            ),
            self.jalr_successors_within(
                r.1@,
                r.4@,
                function_entries@,
                internal_targets@,
                return_sites@,
                call_return_map@,
            ),
    {
        let sorted_function_entries = sorted_elements(function_entries);
        proof {
            crate::sorted::lemma_strictly_sorted_is_sorted(sorted_function_entries@);
        }
        let func_internal_targets = self.group_by_function(
            sorted_function_entries.as_slice(),
            internal_targets,
        );
        let (successors, complete, rounds, states) = self.worklist_analysis(
            function_entries,
            internal_targets,
            return_sites,
            sorted_function_entries.as_slice(),
            &func_internal_targets,
            call_return_map,
        );
        proof {
            reveal(recorded_have_states);
            assert forall|l: u64| true implies crate::analyzer::floor_value(
                sorted_function_entries@,
                l,
            ) == crate::analyzer::set_floor(function_entries@, l) by {
                crate::analyzer::lemma_floor_value_set(sorted_function_entries@, l);
            }
            lemma_flow_sets(
                self,
                successors@,
                states@,
                complete,
                function_entries@,
                internal_targets@,
                return_sites@,
                sorted_function_entries@,
                func_internal_targets@,
                call_return_map@,
            );
            if complete {
                lemma_settled_sets(
                    self.segments(),
                    self.base(),
                    self.end(),
                    successors@,
                    states@,
                    function_entries@,
                    internal_targets@,
                    return_sites@,
                    sorted_function_entries@,
                    func_internal_targets@,
                    call_return_map@,
                );
            }
        }
        (sorted_function_entries, successors, complete, rounds, states)
    }

    /// Analyze the control flow of the image.
    ///
    /// Which indirect targets are found can depend on the order in which the
    /// worklist is seeded from hash sets, so the result is stated as what
    /// holds of every outcome: the candidate targets, the successors of
    /// every instruction but JALR, the leaders given the successors, and for
    /// a JALR successors that its instruction gives from some register
    /// state. `analyze_with_status` also states how the propagation of
    /// register values ended and what the states it reached satisfy.
    pub fn analyze(&self) -> (r: CfgResult)
        requires
            self.analyzable(),
        ensures
            r.function_entries@ == self.scan().2,
            r.internal_targets@ == self.scan().3,
            r.function_entries@.contains(self.entry()),
            forall|f: u64| r.function_entries@.contains(f) ==> f == self.entry() || self.valid(f),
            self.base() < self.end() && decoded_at(self.segments(), self.entry()) is Some
                ==> r.successors@.contains_key(self.entry()),
            r.unresolved_jumps@.is_empty(),
            r.leaders@ == self.leaders_of(
                r.successors@,
                r.function_entries@,
                r.internal_targets@,
                self.scan().4,
            ),
            successors_ok(self.segments(), self.base(), self.end(), r.successors@),
            inverse_of(r.successors@, r.predecessors@),
            forall|l: u64|
                #[trigger] r.block_to_function@.contains_key(l) <==> r.leaders@.contains(l)
                    && crate::analyzer::set_floor(r.function_entries@, l) != 0,
            forall|l: u64|
                #[trigger] r.block_to_function@.contains_key(l) ==> r.block_to_function@[l]
                    == crate::analyzer::set_floor(r.function_entries@, l),
            forall|callee: u64|
                #[trigger] r.call_return_map@.contains_key(callee) ==> r.function_entries@.contains(
                    callee,
                ) && self.valid(callee),
            forall|callee: u64, ret: u64|
                r.call_return_map@.contains_key(callee) && #[trigger] r.call_return_map@[callee]@.contains(
                    ret,
                ) ==> exists|pc: u64| #[trigger] static_call_to(self.segments(), pc, callee, ret),
            forall|pc: u64, callee: u64, ret: u64|
                self.swept().contains(pc) && #[trigger] static_call_to(self.segments(), pc, callee, ret)
                    && r.function_entries@.contains(callee) && self.valid(callee)
                    ==> r.call_return_map@.contains_key(callee) && r.call_return_map@[callee]@.contains(
                    ret,
                ),
            links_ok(self.segments(), r.successors@),
            forall|pc: u64, t: u64|
                r.successors@.contains_key(pc) && #[trigger] r.successors@[pc]@.contains(t)
                    ==> match decoded_at(self.segments(), pc) {
                    Some((d, size)) => d.kind == CfgInstrKind::Jalr ==> exists|s: RegisterState|
                        s.wf() && #[trigger] indirect_successors(
                            self.base(),
                            self.end(),
                            pc,
                            size,
                            d,
                            s,
                            r.function_entries@,
                            r.internal_targets@,
                            self.scan().4,
                            r.call_return_map@,
                        ).contains(t),
                    None => true,
                },
    {
        let (result, status) = self.analyze_with_status();
        proof {
            reveal(CfgAnalyzer::jalr_successors_within);
        }
        result
    }

    /// Analyze the control flow of the image, with how the propagation of
    /// register values ended: the rounds it ran (at most 20 per byte of the
    /// code range, all of them when it stopped early), whether it ran until
    /// nothing changed, and the register state reached at each pc. Every
    /// known register value at a pc comes from the instruction at a
    /// predecessor (`values_sourced`), and each successor of a recorded JALR
    /// is one its instruction gives from a state that its final state covers
    /// (`jalr_successors_within`). When it ran to completion, every
    /// successor and every candidate target that decodes has successors of
    /// its own, each recorded JALR has among its successors those its final
    /// register state gives (`indirect_successors`), and every recorded pc
    /// has passed its final state on: merging the state after its
    /// instruction into the state of any successor that state gives changes
    /// nothing (`states_passed_on`).
    #[verifier::rlimit(100)]
    #[verifier::spinoff_prover]
    pub fn analyze_with_status(&self) -> (r: (CfgResult, AnalysisStatus))
        requires
            self.analyzable(),
        ensures
            r.0.function_entries@ == self.scan().2,
            r.0.internal_targets@ == self.scan().3,
            r.0.function_entries@.contains(self.entry()),
            forall|f: u64| r.0.function_entries@.contains(f) ==> f == self.entry() || self.valid(f),
            self.base() < self.end() && decoded_at(self.segments(), self.entry()) is Some
                ==> r.0.successors@.contains_key(self.entry()),
            r.0.unresolved_jumps@.is_empty(),
            r.0.leaders@ == self.leaders_of(
                r.0.successors@,
                r.0.function_entries@,
                r.0.internal_targets@,
                self.scan().4,
            ),
            successors_ok(self.segments(), self.base(), self.end(), r.0.successors@),
            inverse_of(r.0.successors@, r.0.predecessors@),
            forall|l: u64|
                #[trigger] r.0.block_to_function@.contains_key(l) <==> r.0.leaders@.contains(l)
                    && crate::analyzer::set_floor(r.0.function_entries@, l) != 0,
            forall|l: u64|
                #[trigger] r.0.block_to_function@.contains_key(l) ==> r.0.block_to_function@[l]
                    == crate::analyzer::set_floor(r.0.function_entries@, l),
            forall|callee: u64|
                #[trigger] r.0.call_return_map@.contains_key(callee) ==> r.0.function_entries@.contains(
                    callee,
                ) && self.valid(callee),
            forall|callee: u64, ret: u64|
                r.0.call_return_map@.contains_key(callee) && #[trigger] r.0.call_return_map@[callee]@.contains(
                    ret,
                ) ==> exists|pc: u64| #[trigger] static_call_to(self.segments(), pc, callee, ret),
            forall|pc: u64, callee: u64, ret: u64|
                self.swept().contains(pc) && #[trigger] static_call_to(self.segments(), pc, callee, ret)
                    && r.0.function_entries@.contains(callee) && self.valid(callee)
                    ==> r.0.call_return_map@.contains_key(callee) && r.0.call_return_map@[callee]@.contains(
                    ret,
                ),
            links_ok(self.segments(), r.0.successors@),
            r.1.rounds <= (self.end() - self.base()) * MAX_ITERATIONS_MULTIPLIER,
            !r.1.complete ==> r.1.rounds == (self.end() - self.base()) * MAX_ITERATIONS_MULTIPLIER,
            r.1.complete ==> closed_under_successors(self.segments(), r.0.successors@),
            r.1.complete ==> forall|a: u64|
                (r.0.function_entries@.contains(a) || r.0.internal_targets@.contains(a))
                    && #[trigger] decoded_at(self.segments(), a) is Some
                    ==> r.0.successors@.contains_key(a),
            forall|pc: u64|
                #[trigger] r.0.successors@.contains_key(pc) ==> r.1.states@.contains_key(pc),
            r.1.complete ==> forall|pc: u64|
                #[trigger] r.0.successors@.contains_key(pc) ==> match decoded_at(self.segments(), pc) {
                    Some((d, size)) => d.kind == CfgInstrKind::Jalr ==> indirect_successors(
                        self.base(),
                        self.end(),
                        pc,
                        size,
                        d,
                        r.1.states@[pc],
                        r.0.function_entries@,
                        r.0.internal_targets@,
                        self.scan().4,
                        r.0.call_return_map@,
                    ).subset_of(r.0.successors@[pc]@),
                    None => true,
                },
            states_wf(r.1.states@),
            values_sourced(self.segments(), r.0.successors@, r.1.states@),
            r.1.complete ==> self.states_passed_on(
                r.0.successors@,
                r.1.states@,
                r.0.function_entries@,
                r.0.internal_targets@,
                self.scan().4,
                r.0.call_return_map@,
            ),
            self.jalr_successors_within(
                r.0.successors@,
                r.1.states@,
                r.0.function_entries@,
                r.0.internal_targets@,
                self.scan().4,
                r.0.call_return_map@,
            ),
    {
        let (function_entries, internal_targets, return_sites) = self.collect_potential_targets();
        let call_return_map = self.build_call_return_map(&function_entries);
        let (sorted_function_entries, successors, complete, rounds, states) = self.propagate(
            &function_entries,
            &internal_targets,
            &return_sites,
            &call_return_map,
        );
        let leaders = self.compute_leaders(
            &successors,
            &function_entries,
            &internal_targets,
            &return_sites,
        );
        let block_to_function = self.map_blocks_to_functions(
            &leaders,
            sorted_function_entries.as_slice(),
        );
        proof {
            assert forall|l: u64| true implies crate::analyzer::floor_value(
                sorted_function_entries@,
                l,
            ) == crate::analyzer::set_floor(function_entries@, l) by {
                crate::analyzer::lemma_floor_value_set(sorted_function_entries@, l);
            }
        }
        let predecessors = invert(&successors);
        let result = CfgResult {
            successors,
            predecessors,
            unresolved_jumps: HashSet::new(),
            leaders,
            call_return_map,
            block_to_function,
            function_entries,
            internal_targets,
        };
        (result, AnalysisStatus { rounds, complete, states })
    }
}

/// One instance of a partial inverse.
#[verifier::spinoff_prover]
proof fn lemma_partial_inverse_at(
    succ: Map<u64, HashSet<u64>>,
    pred: Map<u64, HashSet<u64>>,
    done: Set<u64>,
    pc: u64,
    got: Set<u64>,
    p: u64,
    q: u64,
)
    requires
        partial_inverse(succ, pred, done, pc, got),
    ensures
        ((done.contains(p) && succ.contains_key(p) && succ[p]@.contains(q)) || (p == pc
            && got.contains(q))) <==> (pred.contains_key(q) && pred[q]@.contains(p)),
{
}

/// The inverse relation of a successor map: each successor maps to the PCs
/// it follows.
pub fn invert(successors: &HashMap<u64, HashSet<u64>>) -> (r: HashMap<u64, HashSet<u64>>)
    ensures
        inverse_of(successors@, r@),
{
    let mut predecessors: HashMap<u64, HashSet<u64>> = HashMap::new();
    let pcs = map_keys(successors);
    let ghost mut done: Set<u64> = Set::empty();
    let mut i: usize = 0;
    while i < pcs.len()
        invariant
            i <= pcs@.len(),
            pcs@.to_set() == successors@.dom(),
            pcs@.no_duplicates(),
            done == pcs@.take(i as int).to_set(),
            partial_inverse(successors@, predecessors@, done, 0, Set::empty()),
        decreases pcs.len() - i,
    {
        let pc = pcs[i];
        proof {
            assert(pcs@.to_set().contains(pc));
            assert(!done.contains(pc)) by {
                if done.contains(pc) {
                    let k = choose|k: int| 0 <= k < i && pcs@.take(i as int)[k] == pc;
                    assert(pcs@[k] == pcs@[i as int]);
                }
            }
            assert(partial_inverse(successors@, predecessors@, done, pc, Set::empty()));
        }
        let succs = match successors.get(&pc) {
            Some(x) => x,
            None => {
                proof {
                    assert(false);
                }
                i += 1;
                continue;
            },
        };
        let elems = set_elements(succs);
        let ghost mut got: Set<u64> = Set::empty();
        let mut j: usize = 0;
        while j < elems.len()
            invariant
                j <= elems@.len(),
                successors@.contains_key(pc),
                successors@[pc] == *succs,
                elems@.to_set() == succs@,
                !done.contains(pc),
                got == elems@.take(j as int).to_set(),
                partial_inverse(successors@, predecessors@, done, pc, got),
            decreases elems.len() - j,
        {
            let succ = elems[j];
            let ghost before = predecessors@;
            multimap_add(&mut predecessors, succ, pc);
            proof {
                assert(elems@.take(j + 1) =~= elems@.take(j as int).push(succ));
                elems@.take(j as int).lemma_push_to_set_commute(succ);
                let got2 = got.insert(succ);
                assert forall|p: u64, q: u64|
                    #![trigger successors@[p]@.contains(q)]
                    #![trigger predecessors@[q]@.contains(p)]
                    ((done.contains(p) && successors@.contains_key(p) && successors@[p]@.contains(q))
                        || (p == pc && got2.contains(q))) <==> (predecessors@.contains_key(q)
                        && predecessors@[q]@.contains(p)) by {
                    assert(sets_view(predecessors@).contains_key(q) == predecessors@.contains_key(q));
                    assert(sets_view(before).contains_key(q) == before.contains_key(q));
                    lemma_partial_inverse_at(successors@, before, done, pc, got, p, q);
                    if predecessors@.contains_key(q) {
                        assert(sets_view(predecessors@)[q] == predecessors@[q]@);
                    }
                    if before.contains_key(q) {
                        assert(sets_view(before)[q] == before[q]@);
                        assert(before[q]@.contains(p) == (before.contains_key(q)
                            && before[q]@.contains(p)));
                    }
                }
                got = got2;
            }
            j += 1;
        }
        proof {
            assert(elems@.take(j as int) =~= elems@);
            assert(got =~= successors@[pc]@);
            assert(pcs@.take(i + 1) =~= pcs@.take(i as int).push(pc));
            pcs@.take(i as int).lemma_push_to_set_commute(pc);
            let done2 = done.insert(pc);
            assert forall|p: u64, q: u64|
                #![trigger successors@[p]@.contains(q)]
                #![trigger predecessors@[q]@.contains(p)]
                ((done2.contains(p) && successors@.contains_key(p) && successors@[p]@.contains(q))
                    || (p == 0 && Set::<u64>::empty().contains(q))) <==> (
                predecessors@.contains_key(q) && predecessors@[q]@.contains(p)) by {
                assert(done2.contains(p) == (done.contains(p) || p == pc));
                assert(!Set::<u64>::empty().contains(q));
                if p == pc {
                    assert(got.contains(q) == successors@[pc]@.contains(q));
                    assert(successors@.contains_key(pc));
                }
                assert(((done.contains(p) && successors@.contains_key(p) && successors@[p]@.contains(
                    q,
                )) || (p == pc && got.contains(q))) <==> (predecessors@.contains_key(q)
                    && predecessors@[q]@.contains(p)));
            }
            done = done2;
        }
        i += 1;
    }
    proof {
        assert(pcs@.take(i as int) =~= pcs@);
        assert forall|p: u64, q: u64|
            #![trigger successors@[p]@.contains(q)]
            #![trigger predecessors@[q]@.contains(p)]
            (successors@.contains_key(p) && successors@[p]@.contains(q)) <==> (
            predecessors@.contains_key(q) && predecessors@[q]@.contains(p)) by {
            if successors@.contains_key(p) {
                assert(pcs@.to_set().contains(p));
            }
        }
    }
    predecessors
}

/// A set of values while it has at most `MAX_VALUES` elements, unknown beyond.
pub open spec fn capped(s: Set<u64>) -> Option<Set<u64>> {
    if s.finite() && s.len() <= MAX_VALUES {
        Some(s)
    } else {
        None
    }
}

/// Every value plus the immediate (wrapping).
pub open spec fn shifted(vals: Seq<u64>, imm: i32) -> Set<u64> {
    vals.map_values(|v: u64| wrap64(v + imm) as u64).to_set()
}

/// Every sum of a value of `a` and a value of `b` (wrapping).
pub open spec fn pair_sums(a: Seq<u64>, b: Seq<u64>) -> Set<u64> {
    Set::new(
        |x: u64|
            exists|i: int, j: int|
                0 <= i < a.len() && 0 <= j < b.len() && x == #[trigger] wrap64(a[i] + b[j]) as u64,
    )
}

/// Value of the destination register after an instruction, where it is a
/// function of the instruction and the state alone (all kinds but ADD, whose
/// result only stands for a set of values).
pub open spec fn rd_after(
    segs: Seq<MemorySegment>,
    pc: u64,
    size: u8,
    d: CfgInstr,
    state: RegisterState,
) -> Option<Seq<u64>> {
    if d.kind == CfgInstrKind::Lui {
        Some(seq![d.imm as u64])
    } else if d.kind == CfgInstrKind::Auipc {
        Some(seq![wrap64(pc + d.imm) as u64])
    } else if d.kind == CfgInstrKind::Jal || d.kind == CfgInstrKind::Jalr {
        Some(seq![next_pc(pc, size)])
    } else if d.kind == CfgInstrKind::Move {
        if reg_ok(d.rs1) {
            state.reg(d.rs1 as int)
        } else {
            state.reg(d.rd as int)
        }
    } else if d.kind == CfgInstrKind::Load {
        if !reg_ok(d.rs1) {
            state.reg(d.rd as int)
        } else if d.rs1 != 2 && state.reg(d.rs1 as int) is Some {
            let vals = state.reg(d.rs1 as int)->0;
            match readonly_value(segs, wrap64(vals[0] + d.imm) as u64, d.width as int) {
                Some(val) => Some(
                    seq![crate::decoder::extended_value(val, d.width, d.is_unsigned) as u64],
                ),
                None => None,
            }
        } else {
            None
        }
    } else {
        None
    }
}

impl<'a> CfgAnalyzer<'a> {
    /// Register state after the instruction at `pc`: the destination register
    /// gets the instruction's result as far as it is known (ADDI and ADD map
    /// every combination of known operand values, up to `MAX_VALUES` of them),
    /// every other register keeps its value.
    fn transfer(&self, pc: u64, size: u8, decoded: &CfgInstr, state: RegisterState) -> (r:
        RegisterState)
        requires
            state.wf(),
            pc + size <= u64::MAX,
        ensures
            r.wf(),
            forall|i: int| i != decoded.rd ==> #[trigger] r.reg(i) == state.reg(i),
            !(0 < decoded.rd < 32) ==> forall|i: int| #[trigger] r.reg(i) == state.reg(i),
            0 < decoded.rd < 32 && decoded.kind != CfgInstrKind::Addi && decoded.kind
                != CfgInstrKind::Add ==> r.reg(decoded.rd as int) == rd_after(
                self.segments(),
                pc,
                size,
                *decoded,
                state,
            ),
            0 < decoded.rd < 32 && decoded.kind == CfgInstrKind::Addi ==> possible_reg(
                r,
                decoded.rd as int,
            ) == if !reg_ok(decoded.rs1) {
                possible_reg(state, decoded.rd as int)
            } else if state.reg(decoded.rs1 as int) is Some {
                Some(shifted(state.reg(decoded.rs1 as int)->0, decoded.imm))
            } else {
                None
            },
            0 < decoded.rd < 32 && decoded.kind == CfgInstrKind::Add ==> possible_reg(
                r,
                decoded.rd as int,
            ) == if !(reg_ok(decoded.rs1) && reg_ok(decoded.rs2)) {
                possible_reg(state, decoded.rd as int)
            } else if state.reg(decoded.rs1 as int) is Some && state.reg(decoded.rs2 as int)
                is Some {
                capped(
                    pair_sums(
                        state.reg(decoded.rs1 as int)->0,
                        state.reg(decoded.rs2 as int)->0,
                    ),
                )
            } else {
                None
            },
            forall|i: int|
                #[trigger] possible_reg(r, i) == transfer_possible(
                    self.segments(),
                    pc,
                    size,
                    *decoded,
                    state,
                    i,
                ),
    {
        let ghost s0 = state;
        let mut state = state;
        let rd = decoded.rd;
        let rs1 = decoded.rs1;
        let rs2 = decoded.rs2;
        let writes = rd > 0 && rd < 32;
        match decoded.kind {
            CfgInstrKind::Lui => {
                if writes {
                    state.set_constant(rd as usize, #[verifier::truncate] (decoded.imm as u64));
                }
            },
            CfgInstrKind::Auipc => {
                if writes {
                    state.set_constant(rd as usize, add_signed(pc, decoded.imm));
                }
            },
            CfgInstrKind::Addi => {
                if writes && rs1 >= 0 && rs1 < 32 {
                    let result = match state.get(rs1 as usize).values() {
                        Some(values) => Some(shift_values(values, decoded.imm)),
                        None => None,
                    };
                    match result {
                        Some(v) => state.set(rd as usize, v),
                        None => state.set_unknown(rd as usize),
                    }
                }
            },
            CfgInstrKind::Add => {
                if writes && rs1 >= 0 && rs1 < 32 && rs2 >= 0 && rs2 < 32 {
                    let result = match (
                        state.get(rs1 as usize).values(),
                        state.get(rs2 as usize).values(),
                    ) {
                        (Some(lv), Some(rv)) => Some(sum_values(lv, rv)),
                        _ => None,
                    };
                    match result {
                        Some(v) => state.set(rd as usize, v),
                        None => state.set_unknown(rd as usize),
                    }
                }
            },
            CfgInstrKind::Move => {
                if writes && rs1 >= 0 && rs1 < 32 {
                    let val = state.get(rs1 as usize).clone();
                    state.set(rd as usize, val);
                }
            },
            CfgInstrKind::Load => {
                if writes && rs1 >= 0 && rs1 < 32 {
                    let mut loaded: Option<u64> = None;
                    if rs1 != 2 {
                        match state.get(rs1 as usize).values() {
                            Some(values) => {
                                if values.len() > 0 {
                                    let addr = add_signed(values[0], decoded.imm);
                                    match self.code.read_readonly_value(
                                        addr,
                                        decoded.width as usize,
                                    ) {
                                        Some(val) => {
                                            loaded = Some(
                                                CfgInstr::extend_loaded_value(
                                                    val,
                                                    decoded.width,
                                                    decoded.is_unsigned,
                                                ),
                                            );
                                        },
                                        None => {},
                                    }
                                }
                            },
                            None => {},
                        }
                    }
                    match loaded {
                        Some(v) => state.set_constant(rd as usize, v),
                        None => state.set_unknown(rd as usize),
                    }
                }
            },
            CfgInstrKind::Jal | CfgInstrKind::Jalr => {
                if writes {
                    state.set_constant(rd as usize, pc + size as u64);
                }
            },
            _ => {
                if writes {
                    state.set_unknown(rd as usize);
                }
            },
        }
        proof {
            lemma_transfer_possible(self.segments(), pc, size, *decoded, s0, state);
        }
        state
    }
}

/// The possible values of a register of a state.
pub open spec fn possible_reg(s: RegisterState, i: int) -> Option<Set<u64>> {
    crate::value::possible(s.reg(i))
}

/// Every known value plus the immediate, as a tracked value.
fn shift_values(values: &[u64], imm: i32) -> (r: RegisterValue)
    requires
        crate::value::value_wf(Some(values@)),
    ensures
        r.wf(),
        crate::value::possible(r@) == Some(shifted(values@, imm)),
{
    let mut result = RegisterValue::constant(add_signed(values[0], imm));
    let ghost f = |v: u64| wrap64(v + imm) as u64;
    proof {
        assert(values@.take(1).map_values(f) =~= seq![f(values@[0])]);
        lemma_singleton_to_set(f(values@[0]));
    }
    let mut k: usize = 1;
    while k < values.len()
        invariant
            1 <= k <= values@.len() <= crate::value::MAX_VALUES,
            f == (|v: u64| wrap64(v + imm) as u64),
            result.wf(),
            crate::value::possible(result@) == Some(values@.take(k as int).map_values(f).to_set()),
        decreases values.len() - k,
    {
        let x = add_signed(values[k], imm);
        let ghost before = values@.take(k as int).map_values(f);
        proof {
            assert(f(values@[k as int]) == x);
            assert(values@.take(k + 1).map_values(f) =~= before.push(x));
            before.lemma_push_to_set_commute(x);
            before.push(x).lemma_cardinality_of_set();
            vstd::seq_lib::seq_to_set_is_finite(before.push(x));
            assert(before.to_set().union(set![x]) =~= before.to_set().insert(x));
        }
        result.add_value(x);
        k += 1;
    }
    proof {
        assert(values@.take(k as int) =~= values@);
    }
    result
}

/// Sums of the operand pairs that come before `(i, j)` in row order, and
/// the first pair's sum.
pub open spec fn sums_before(a: Seq<u64>, b: Seq<u64>, i: int, j: int) -> Set<u64> {
    Set::new(
        |x: u64|
            exists|p: int, q: int|
                0 <= p < a.len() && 0 <= q < b.len() && (p < i || (p == i && q < j) || (p == 0 && q
                    == 0)) && x == #[trigger] wrap64(a[p] + b[q]) as u64,
    )
}

/// One more pair: the set grows by its sum.
proof fn lemma_sums_step(a: Seq<u64>, b: Seq<u64>, i: int, j: int)
    requires
        0 <= i < a.len(),
        0 <= j < b.len(),
    ensures
        sums_before(a, b, i, j + 1) == sums_before(a, b, i, j).insert(wrap64(a[i] + b[j]) as u64),
{
    let x = wrap64(a[i] + b[j]) as u64;
    assert forall|y: u64| sums_before(a, b, i, j + 1).contains(y) implies sums_before(
        a,
        b,
        i,
        j,
    ).insert(x).contains(y) by {
        let (p, q) = choose|p: int, q: int|
            0 <= p < a.len() && 0 <= q < b.len() && (p < i || (p == i && q < j + 1) || (p == 0 && q
                == 0)) && y == #[trigger] wrap64(a[p] + b[q]) as u64;
        if !(p == i && q == j) {
            assert(sums_before(a, b, i, j).contains(y));
        }
    }
    assert forall|y: u64| sums_before(a, b, i, j).insert(x).contains(y) implies sums_before(
        a,
        b,
        i,
        j + 1,
    ).contains(y) by {
        if y == x {
            assert(wrap64(a[i] + b[j]) as u64 == y);
        } else {
            let (p, q) = choose|p: int, q: int|
                0 <= p < a.len() && 0 <= q < b.len() && (p < i || (p == i && q < j) || (p == 0
                    && q == 0)) && y == #[trigger] wrap64(a[p] + b[q]) as u64;
            assert(wrap64(a[p] + b[q]) as u64 == y);
        }
    }
    assert(sums_before(a, b, i, j + 1) =~= sums_before(a, b, i, j).insert(x));
}

/// A finished row is the start of the next one; all rows are every pair.
proof fn lemma_sums_rows(a: Seq<u64>, b: Seq<u64>, i: int)
    requires
        0 <= i <= a.len(),
    ensures
        sums_before(a, b, i, b.len() as int) == sums_before(a, b, i + 1, 0),
        i == a.len() ==> sums_before(a, b, i, 0) == pair_sums(a, b),
{
    assert(sums_before(a, b, i, b.len() as int) =~= sums_before(a, b, i + 1, 0));
    if i == a.len() {
        assert forall|y: u64| pair_sums(a, b).contains(y) implies sums_before(a, b, i, 0).contains(
            y,
        ) by {
            let (p, q) = choose|p: int, q: int|
                0 <= p < a.len() && 0 <= q < b.len() && y == #[trigger] wrap64(a[p] + b[q]) as u64;
            assert(wrap64(a[p] + b[q]) as u64 == y);
        }
        assert(sums_before(a, b, i, 0) =~= pair_sums(a, b));
    }
}

/// Once too many sums are known, the whole set is too large.
proof fn lemma_sums_too_many(a: Seq<u64>, b: Seq<u64>, i: int, j: int)
    requires
        0 <= i <= a.len(),
        capped(sums_before(a, b, i, j)) is None,
        sums_before(a, b, i, j).finite(),
    ensures
        capped(pair_sums(a, b)) is None,
{
    if pair_sums(a, b).finite() {
        assert(sums_before(a, b, i, j).subset_of(pair_sums(a, b)));
        vstd::set_lib::lemma_len_subset(sums_before(a, b, i, j), pair_sums(a, b));
    }
}

/// `seq![x]` holds exactly `x`.
proof fn lemma_singleton_to_set(x: u64)
    ensures
        seq![x].to_set() == set![x],
{
    assert(seq![x][0] == x);
    assert(seq![x].to_set() =~= set![x]);
}

/// Joining a capped set with one more value caps the larger set.
proof fn lemma_join_capped(s: Set<u64>, x: u64)
    requires
        s.finite(),
    ensures
        crate::value::join(capped(s), Some(set![x])) == capped(s.insert(x)),
{
    assert(s.union(set![x]) =~= s.insert(x));
    if !(s.len() <= MAX_VALUES) {
        vstd::set_lib::lemma_len_subset(s, s.insert(x));
    }
}

/// Every sum of a known value of each operand, as a tracked value: unknown
/// once there are more than `MAX_VALUES` of them.
fn sum_values(lv: &[u64], rv: &[u64]) -> (r: RegisterValue)
    requires
        crate::value::value_wf(Some(lv@)),
        crate::value::value_wf(Some(rv@)),
    ensures
        r.wf(),
        crate::value::possible(r@) == capped(pair_sums(lv@, rv@)),
{
    let first = lv[0].wrapping_add(rv[0]);
    let mut result = RegisterValue::constant(first);
    let ghost a = lv@;
    let ghost b = rv@;
    proof {
        assert(sums_before(a, b, 0, 0) =~= set![first]) by {
            assert(wrap64(a[0] + b[0]) as u64 == first);
        }
        lemma_singleton_to_set(first);
    }
    let ghost mut acc = sums_before(a, b, 0, 0);
    let mut i: usize = 0;
    let mut done = false;
    while i < lv.len() && !done
        invariant
            a == lv@,
            b == rv@,
            1 <= a.len(),
            1 <= b.len(),
            i <= lv@.len(),
            result.wf(),
            acc.finite(),
            !done ==> acc == sums_before(a, b, i as int, 0),
            crate::value::possible(result@) == capped(acc),
            done ==> capped(pair_sums(a, b)) is None && result@ is None,
        decreases lv.len() - i,
    {
        let mut j: usize = 0;
        while j < rv.len() && !done
            invariant
                a == lv@,
                b == rv@,
                1 <= a.len(),
                1 <= b.len(),
                i < lv@.len(),
                j <= rv@.len(),
                result.wf(),
                acc.finite(),
                !done ==> acc == sums_before(a, b, i as int, j as int),
                crate::value::possible(result@) == capped(acc),
                done ==> capped(pair_sums(a, b)) is None && result@ is None,
            decreases rv.len() - j,
        {
            let x = lv[i].wrapping_add(rv[j]);
            proof {
                assert(x == wrap64(a[i as int] + b[j as int]) as u64);
                lemma_sums_step(a, b, i as int, j as int);
            }
            if i != 0 || j != 0 {
                proof {
                    lemma_join_capped(acc, x);
                }
                result.add_value(x);
                proof {
                    acc = acc.insert(x);
                }
                if !result.is_constant() {
                    proof {
                        lemma_sums_too_many(a, b, i as int, j + 1);
                    }
                    done = true;
                }
            } else {
                proof {
                    assert(acc.contains(x)) by {
                        assert(wrap64(a[0] + b[0]) as u64 == x);
                    }
                    assert(acc.insert(x) =~= acc);
                }
            }
            j += 1;
        }
        proof {
            if !done {
                lemma_sums_rows(a, b, i as int);
            }
        }
        i += 1;
    }
    proof {
        if !done {
            lemma_sums_rows(a, b, i as int);
        }
    }
    result
}

/// The segment holding a PC bounds it.
proof fn lemma_segment_of_pc_bound(segs: Seq<MemorySegment>, pc: u64, n: int)
    requires
        n <= segs.len(),
    ensures
        segment_of_pc(segs, pc, n) matches Some(i) ==> 0 <= i < n && segs[i].virtual_start <= pc
            < segs[i].virtual_end,
    decreases n,
{
    if n > 0 {
        lemma_segment_of_pc_bound(segs, pc, n - 1);
    }
}

/// Instructions are 2 or 4 bytes long.
proof fn lemma_instr_size(segs: Seq<MemorySegment>, pc: u64)
    ensures
        instr_at(segs, pc) matches Some((_, size)) ==> size == 2 || size == 4,
{
}

/// A load into rd from a base register whose first tracked value is `v`
/// leaves in rd exactly the read-only value of the load's width at address
/// `v + imm` (wrapping to 64 bits), zero- or sign-extended as the load says;
/// where no read-only data of that width is there, rd becomes unknown.
pub proof fn law_load_reads_memory(
    segs: Seq<MemorySegment>,
    pc: u64,
    size: u8,
    d: CfgInstr,
    state: RegisterState,
)
    requires
        d.kind == CfgInstrKind::Load,
        0 < d.rd < 32,
        0 <= d.rs1 < 32,
        d.rs1 != 2,
        state.reg(d.rs1 as int) matches Some(vals) && vals.len() > 0,
    ensures
        transfer_possible(segs, pc, size, d, state, d.rd as int) == match readonly_value(
            segs,
            ((state.reg(d.rs1 as int)->0[0] + d.imm) % 0x1_0000_0000_0000_0000) as u64,
            d.width as int,
        ) {
            Some(val) => Some(set![extended_value(val, d.width, d.is_unsigned) as u64]),
            None => None::<Set<u64>>,
        },
{
    let vals = state.reg(d.rs1 as int)->0;
    let addr = ((vals[0] + d.imm) % 0x1_0000_0000_0000_0000) as u64;
    assert(wrap64(vals[0] + d.imm) as u64 == addr);
    if let Some(val) = readonly_value(segs, addr, d.width as int) {
        lemma_singleton_to_set(extended_value(val, d.width, d.is_unsigned) as u64);
    }
}

/// What each instruction does to the tracked registers: every register but
/// rd keeps its values; LUI loads its immediate (sign-extended to 64 bits);
/// AUIPC the pc plus its immediate; JAL and JALR the address after
/// them; ADDI every known value of rs1 plus its immediate (wrapping), or
/// nothing known when rs1 is unknown; ADD nothing known when an operand is
/// unknown; a move copies rs1; any instruction the analysis does not model
/// leaves rd unknown, and so does a load through the stack pointer or
/// through a base register whose value is unknown.
pub proof fn law_transfer_results(
    segs: Seq<MemorySegment>,
    pc: u64,
    size: u8,
    d: CfgInstr,
    state: RegisterState,
)
    requires
        0 < d.rd < 32,
    ensures
        forall|i: int|
            i != d.rd ==> #[trigger] transfer_possible(segs, pc, size, d, state, i) == possible_reg(
                state,
                i,
            ),
        d.kind == CfgInstrKind::Lui ==> transfer_possible(segs, pc, size, d, state, d.rd as int)
            == Some(set![d.imm as u64]),
        d.kind == CfgInstrKind::Auipc ==> transfer_possible(segs, pc, size, d, state, d.rd as int)
            == Some(set![((pc + d.imm) % 0x1_0000_0000_0000_0000) as u64]),
        d.kind == CfgInstrKind::Jal || d.kind == CfgInstrKind::Jalr ==> transfer_possible(
            segs,
            pc,
            size,
            d,
            state,
            d.rd as int,
        ) == Some(set![(pc + size) as u64]),
        d.kind == CfgInstrKind::Addi && 0 <= d.rs1 < 32 ==> transfer_possible(
            segs,
            pc,
            size,
            d,
            state,
            d.rd as int,
        ) == match state.reg(d.rs1 as int) {
            Some(vals) => Some(
                Set::new(
                    |x: u64|
                        exists|k: int|
                            0 <= k < vals.len() && x == ((vals[k] + d.imm) % 0x1_0000_0000_0000_0000)
                                as u64,
                ),
            ),
            None => None,
        },
        d.kind == CfgInstrKind::Add && 0 <= d.rs1 < 32 && 0 <= d.rs2 < 32 && (state.reg(
            d.rs1 as int,
        ) is None || state.reg(d.rs2 as int) is None) ==> transfer_possible(
            segs,
            pc,
            size,
            d,
            state,
            d.rd as int,
        ) is None,
        d.kind == CfgInstrKind::Move && 0 <= d.rs1 < 32 ==> transfer_possible(
            segs,
            pc,
            size,
            d,
            state,
            d.rd as int,
        ) == possible_reg(state, d.rs1 as int),
        d.kind == CfgInstrKind::Unknown || d.kind == CfgInstrKind::Store || d.kind
            == CfgInstrKind::Branch ==> transfer_possible(segs, pc, size, d, state, d.rd as int)
            is None,
        d.kind == CfgInstrKind::Load && 0 <= d.rs1 < 32 && (d.rs1 == 2 || state.reg(d.rs1 as int)
            is None) ==> transfer_possible(segs, pc, size, d, state, d.rd as int) is None,
{
    if d.kind == CfgInstrKind::Lui {
        lemma_singleton_to_set(d.imm as u64);
    } else if d.kind == CfgInstrKind::Auipc {
        lemma_singleton_to_set(wrap64(pc + d.imm) as u64);
    } else if d.kind == CfgInstrKind::Jal || d.kind == CfgInstrKind::Jalr {
        lemma_singleton_to_set(next_pc(pc, size));
    } else if d.kind == CfgInstrKind::Addi && 0 <= d.rs1 < 32 {
        if let Some(vals) = state.reg(d.rs1 as int) {
            let m = vals.map_values(|v: u64| wrap64(v + d.imm) as u64);
            let target = Set::new(
                |x: u64|
                    exists|k: int|
                        0 <= k < vals.len() && x == ((vals[k] + d.imm) % 0x1_0000_0000_0000_0000)
                            as u64,
            );
            assert forall|x: u64| m.to_set().contains(x) <==> target.contains(x) by {
                if m.to_set().contains(x) {
                    let k = choose|k: int| 0 <= k < m.len() && m[k] == x;
                    assert(x == ((vals[k] + d.imm) % 0x1_0000_0000_0000_0000) as u64);
                }
                if target.contains(x) {
                    let k = choose|k: int|
                        0 <= k < vals.len() && x == ((vals[k] + d.imm) % 0x1_0000_0000_0000_0000)
                            as u64;
                    assert(m[k] == x);
                    assert(m.contains(x));
                }
            }
            assert(shifted(vals, d.imm) =~= target);
        }
    }
}

} // verus!
