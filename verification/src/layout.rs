//! Byte layout of the guest state struct `RvState` that the generated C code
//! declares and the assembly backends address directly: natural C alignment
//! of each field, in declaration order.

use vstd::prelude::*;

verus! {

/// `x` rounded up to a multiple of `a`.
pub open spec fn align_up(x: int, a: int) -> int {
    if x % a == 0 {
        x
    } else {
        x + (a - x % a)
    }
}

/// Whether `x` is a multiple of `a`.
pub open spec fn aligned(x: int, a: int) -> bool {
    x % a == 0
}

/// Offsets of the fields of `RvState`.
#[derive(Clone, Copy, Debug)]
pub struct RvStateLayout {
    /// Bytes per guest register (4 or 8).
    pub reg_bytes: usize,
    /// Number of guest registers.
    pub num_regs: usize,
    /// Whether the struct holds the `target_instret` field.
    pub instret_suspend: bool,
    pub offset_regs: usize,
    pub offset_pc: usize,
    pub offset_instret: usize,
    /// Offset of `target_instret` (where it stands when present).
    pub offset_target_instret: usize,
    pub offset_reservation_addr: usize,
    pub offset_reservation_valid: usize,
    pub offset_has_exited: usize,
    pub offset_exit_code: usize,
    pub offset_brk: usize,
    pub offset_start_brk: usize,
    pub offset_memory: usize,
    /// Offset of the embedded tracer (right after the memory pointer).
    pub offset_tracer: usize,
}

/// The layout that natural C alignment gives the struct
/// `{ reg_t regs[n]; reg_t pc; uint64_t instret; [uint64_t target_instret;]
/// reg_t reservation_addr; uint8_t reservation_valid, has_exited, exit_code,
/// _pad0; reg_t brk, start_brk; uint8_t* memory; ... }`.
pub open spec fn layout_of(reg_bytes: int, num_regs: int, instret_suspend: bool) -> (
    int,
    int,
    int,
    int,
    int,
    int,
    int,
    int,
    int,
    int,
    int,
) {
    let regs = 0int;
    let pc = regs + num_regs * reg_bytes;
    let instret = align_up(pc + reg_bytes, 8);
    let target = instret + 8;
    let after_instret = if instret_suspend {
        target + 8
    } else {
        instret + 8
    };
    let reservation_addr = align_up(after_instret, reg_bytes);
    let reservation_valid = reservation_addr + reg_bytes;
    let has_exited = reservation_valid + 1;
    let exit_code = has_exited + 1;
    let brk = align_up(exit_code + 2, reg_bytes);
    let start_brk = brk + reg_bytes;
    let memory = align_up(start_brk + reg_bytes, 8);
    (
        regs,
        pc,
        instret,
        target,
        reservation_addr,
        reservation_valid,
        has_exited,
        exit_code,
        brk,
        start_brk,
        memory,
    )
}

fn align_to(x: usize, a: usize) -> (r: usize)
    requires
        a == 4 || a == 8,
        x + a <= usize::MAX,
    ensures
        r == align_up(x as int, a as int),
{
    let rem = x % a;
    if rem == 0 {
        x
    } else {
        x + (a - rem)
    }
}

impl RvStateLayout {
    /// Whether the offsets are those of `layout_of` for the parameters.
    pub open spec fn wf(&self) -> bool {
        let l = layout_of(self.reg_bytes as int, self.num_regs as int, self.instret_suspend);
        &&& self.reg_bytes == 4 || self.reg_bytes == 8
        &&& self.offset_regs == l.0
        &&& self.offset_pc == l.1
        &&& self.offset_instret == l.2
        &&& self.offset_target_instret == l.3
        &&& self.offset_reservation_addr == l.4
        &&& self.offset_reservation_valid == l.5
        &&& self.offset_has_exited == l.6
        &&& self.offset_exit_code == l.7
        &&& self.offset_brk == l.8
        &&& self.offset_start_brk == l.9
        &&& self.offset_memory == l.10
        &&& self.offset_tracer == l.10 + 8
    }

    /// Compute the layout for a register width, a register count and whether
    /// the suspend target field is present.
    pub fn from_params(reg_bytes: usize, num_regs: usize, instret_suspend: bool) -> (r: Self)
        requires
            reg_bytes == 4 || reg_bytes == 8,
            num_regs * reg_bytes + 256 <= usize::MAX,
        ensures
            r.wf(),
            r.offset_tracer + 128 <= usize::MAX,
            r.reg_bytes == reg_bytes,
            r.num_regs == num_regs,
            r.instret_suspend == instret_suspend,
    {
        let offset_regs: usize = 0;
        let offset_pc = offset_regs + num_regs * reg_bytes;
        let offset_instret = align_to(offset_pc + reg_bytes, 8);
        let offset_target_instret = offset_instret + 8;
        let after_instret = if instret_suspend {
            offset_target_instret + 8
        } else {
            offset_instret + 8
        };
        let offset_reservation_addr = align_to(after_instret, reg_bytes);
        let offset_reservation_valid = offset_reservation_addr + reg_bytes;
        let offset_has_exited = offset_reservation_valid + 1;
        let offset_exit_code = offset_has_exited + 1;
        let offset_brk = align_to(offset_exit_code + 2, reg_bytes);
        let offset_start_brk = offset_brk + reg_bytes;
        let offset_memory = align_to(offset_start_brk + reg_bytes, 8);
        RvStateLayout {
            reg_bytes,
            num_regs,
            instret_suspend,
            offset_regs,
            offset_pc,
            offset_instret,
            offset_target_instret,
            offset_reservation_addr,
            offset_reservation_valid,
            offset_has_exited,
            offset_exit_code,
            offset_brk,
            offset_start_brk,
            offset_memory,
            offset_tracer: offset_memory + 8,
        }
    }

    /// Byte offset of guest register `reg` in the register array.
    pub fn reg_offset(&self, reg: u8) -> (r: usize)
        requires
            self.wf(),
        ensures
            r == self.offset_regs + reg * self.reg_bytes,
    {
        self.offset_regs + (reg as usize) * self.reg_bytes
    }
}

proof fn lemma_align_up(x: int, a: int)
    requires
        x >= 0,
        a == 4 || a == 8,
    ensures
        x <= align_up(x, a) < x + a,
        aligned(align_up(x, a), a),
{
    assert(aligned(align_up(x, a), a)) by (nonlinear_arith)
        requires
            a == 4 || a == 8,
            align_up(x, a) == if x % a == 0 {
                x
            } else {
                x + (a - x % a)
            },
    ;
}

proof fn lemma_aligned_add(x: int, a: int)
    requires
        a == 4 || a == 8,
        aligned(x, a),
    ensures
        aligned(x + a, a),
{
    assert((x + a) % a == x % a) by (nonlinear_arith)
        requires
            a == 4 || a == 8,
    ;
}

/// Every field of the state struct is aligned to its size and starts at or
/// after the end of the field before it; each register slot lies inside the
/// register array, which ends where `pc` starts.
#[verifier::rlimit(30)]
pub proof fn law_layout_fields_ordered(layout: RvStateLayout)
    requires
        layout.wf(),
    ensures
        forall|r: int|
            0 <= r < layout.num_regs ==> layout.offset_regs <= #[trigger] (layout.offset_regs + r
                * layout.reg_bytes) && layout.offset_regs + r * layout.reg_bytes + layout.reg_bytes
                <= layout.offset_pc,
        layout.offset_pc + layout.reg_bytes <= layout.offset_instret,
        aligned(layout.offset_instret as int, 8),
        layout.instret_suspend ==> layout.offset_instret + 8 <= layout.offset_target_instret,
        layout.offset_instret + 8 <= layout.offset_reservation_addr,
        layout.instret_suspend ==> layout.offset_target_instret + 8 <= layout.offset_reservation_addr,
        aligned(layout.offset_reservation_addr as int, layout.reg_bytes as int),
        layout.offset_reservation_addr + layout.reg_bytes <= layout.offset_reservation_valid,
        layout.offset_reservation_valid + 1 <= layout.offset_has_exited,
        layout.offset_has_exited + 1 <= layout.offset_exit_code,
        layout.offset_exit_code + 2 <= layout.offset_brk,
        aligned(layout.offset_brk as int, layout.reg_bytes as int),
        layout.offset_brk + layout.reg_bytes <= layout.offset_start_brk,
        aligned(layout.offset_start_brk as int, layout.reg_bytes as int),
        layout.offset_start_brk + layout.reg_bytes <= layout.offset_memory,
        aligned(layout.offset_memory as int, 8),
        layout.offset_memory + 8 <= layout.offset_tracer,
{
    let rb = layout.reg_bytes as int;
    let l = layout_of(rb, layout.num_regs as int, layout.instret_suspend);
    lemma_align_up(l.1 + rb, 8);
    let after = if layout.instret_suspend {
        l.3 + 8
    } else {
        l.2 + 8
    };
    lemma_align_up(after, rb);
    lemma_align_up(l.7 + 2, rb);
    lemma_aligned_add(l.8, rb);
    lemma_align_up(l.9 + rb, 8);
    assert forall|r: int| 0 <= r < layout.num_regs implies layout.offset_regs <= #[trigger] (
    layout.offset_regs + r * layout.reg_bytes) && layout.offset_regs + r * layout.reg_bytes
        + layout.reg_bytes <= layout.offset_pc by {
        assert(0 <= r * rb && r * rb + rb <= (layout.num_regs as int) * rb) by (nonlinear_arith)
            requires
                0 <= r < layout.num_regs,
                rb == 4 || rb == 8,
        ;
    }
}

} // verus!
