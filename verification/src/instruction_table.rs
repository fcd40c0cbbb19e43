//! The instruction table: one slot per 2-byte position of the code range,
//! each holding the decoded instruction that starts there (if any), its
//! size and raw encoding; plus the entry points and the read-only segments
//! used for constant propagation.

use vstd::prelude::*;

use crate::bytes::{le_value, read_le};
use crate::decoder::CfgInstr;

verus! {

/// Read-only memory segment for constant propagation.
#[derive(Clone, Debug)]
pub struct RoSegment {
    /// Start address.
    pub start: u64,
    /// End address (exclusive).
    pub end: u64,
    /// Segment data.
    pub data: Vec<u8>,
}

/// Whether `size` bytes at `addr` can be read from a segment: the range lies
/// in the segment and in its data.
pub open spec fn ro_readable(seg: RoSegment, addr: u64, size: int) -> bool {
    &&& seg.start <= addr < seg.end
    &&& addr + size <= seg.end
    &&& addr - seg.start + size <= seg.data@.len()
}

impl RoSegment {
    pub fn new(start: u64, end: u64, data: Vec<u8>) -> (r: Self)
        ensures
            r.start == start,
            r.end == end,
            r.data@ == data@,
    {
        RoSegment { start, end, data }
    }

    /// Whether the address lies within the segment.
    pub fn contains(&self, addr: u64) -> (r: bool)
        ensures
            r == (self.start <= addr < self.end),
    {
        addr >= self.start && addr < self.end
    }

    /// Little-endian value of `size` bytes (at most 8) at `addr`, if they
    /// can be read.
    pub fn read(&self, addr: u64, size: usize) -> (r: Option<u64>)
        requires
            size <= 8,
        ensures
            r == if ro_readable(*self, addr, size as int) {
                Some(
                    le_value(
                        self.data@.subrange(addr - self.start, addr - self.start + size),
                    ) as u64,
                )
            } else {
                None::<u64>
            },
    {
        if !self.contains(addr) || size as u64 > self.end - addr {
            return None;
        }
        let offset = addr - self.start;
        if offset > self.data.len() as u64 || size as u64 > self.data.len() as u64 - offset {
            return None;
        }
        let v = read_le(self.data.as_slice(), offset as usize, size);
        Some(v)
    }
}

/// Slot size in bytes (2, for RISC-V with compressed instructions).
pub const SLOT_SIZE: usize = 2;

/// One 2-byte instruction position.
#[derive(Clone, Copy, Debug)]
struct Slot {
    instr: Option<CfgInstr>,
    size: u8,
    raw: u32,
}

/// Table of decoded instructions, indexed by 2-byte slot from the base
/// address.
pub struct InstructionTable {
    slots: Vec<Slot>,
    base_address: u64,
    end_address: u64,
    entry_points: Vec<u64>,
    ro_segments: Vec<RoSegment>,
}

/// The value the first of the first `n` segments that can read `size`
/// bytes at `addr` gives.
pub open spec fn first_read(segs: Seq<RoSegment>, addr: u64, size: int, n: int) -> Option<u64>
    decreases n,
{
    if n <= 0 {
        None
    } else {
        match first_read(segs, addr, size, n - 1) {
            Some(v) => Some(v),
            None => if ro_readable(segs[n - 1], addr, size) {
                Some(
                    le_value(
                        segs[n - 1].data@.subrange(
                            addr - segs[n - 1].start,
                            addr - segs[n - 1].start + size,
                        ),
                    ) as u64,
                )
            } else {
                None
            },
        }
    }
}

/// The entry-point list after adding each of the first `n` addresses that
/// it does not hold yet, in order.
pub open spec fn with_entries(list: Seq<u64>, addrs: Seq<u64>, n: int) -> Seq<u64>
    decreases n,
{
    if n <= 0 {
        list
    } else {
        let l = with_entries(list, addrs, n - 1);
        if l.contains(addrs[n - 1]) {
            l
        } else {
            l.push(addrs[n - 1])
        }
    }
}

/// The number of 2-byte slots that cover `size` bytes.
pub open spec fn slot_count(size: int) -> int {
    (size + 1) / 2
}

impl InstructionTable {
    /// Number of slots.
    pub closed spec fn num_slots(&self) -> nat {
        self.slots@.len()
    }

    /// The instruction decoded at slot `i`, if any.
    pub closed spec fn instr_at(&self, i: int) -> Option<CfgInstr> {
        if 0 <= i < self.slots@.len() {
            self.slots@[i].instr
        } else {
            None
        }
    }

    /// The size recorded at slot `i` (0 outside the table).
    pub closed spec fn size_at(&self, i: int) -> u8 {
        if 0 <= i < self.slots@.len() {
            self.slots@[i].size
        } else {
            0
        }
    }

    /// The raw encoding recorded at slot `i` (0 outside the table).
    pub closed spec fn raw_at(&self, i: int) -> u32 {
        if 0 <= i < self.slots@.len() {
            self.slots@[i].raw
        } else {
            0
        }
    }

    /// Start of the code range.
    pub closed spec fn base(&self) -> u64 {
        self.base_address
    }

    /// End of the code range (exclusive).
    pub closed spec fn end(&self) -> u64 {
        self.end_address
    }

    /// The entry points.
    pub closed spec fn entries(&self) -> Seq<u64> {
        self.entry_points@
    }

    /// The read-only segments.
    pub closed spec fn segments(&self) -> Seq<RoSegment> {
        self.ro_segments@
    }

    /// The slot index of a pc: its offset from the base halved, for an
    /// even offset inside the code range.
    pub open spec fn index_of(&self, pc: u64) -> Option<usize> {
        if pc < self.base() || pc >= self.end() || (pc - self.base()) % 2 != 0 || pc - self.base()
            > usize::MAX {
            None
        } else {
            Some(((pc - self.base()) / 2) as usize)
        }
    }

    /// An empty table for a code range, with one entry point: every slot
    /// holds no instruction.
    pub fn new(base_address: u64, end_address: u64, entry_point: u64) -> (r: Self)
        requires
            base_address <= end_address,
            end_address - base_address <= usize::MAX,
        ensures
            r.num_slots() == slot_count(end_address - base_address),
            forall|i: int| r.instr_at(i) is None && #[trigger] r.size_at(i) == 0 && r.raw_at(i) == 0,
            r.base() == base_address,
            r.end() == end_address,
            r.entries() == seq![entry_point],
            r.segments().len() == 0,
    {
        let total_size = (end_address - base_address) as usize;
        let total_slots = total_size / SLOT_SIZE + total_size % SLOT_SIZE;
        let mut slots: Vec<Slot> = Vec::new();
        let mut k: usize = 0;
        while k < total_slots
            invariant
                k <= total_slots,
                slots@.len() == k,
                forall|j: int|
                    0 <= j < k ==> #[trigger] slots@[j] == (Slot { instr: None, size: 0, raw: 0 }),
            decreases total_slots - k,
        {
            slots.push(Slot { instr: None, size: 0, raw: 0 });
            k += 1;
        }
        let mut entry_points: Vec<u64> = Vec::new();
        entry_points.push(entry_point);
        let r = InstructionTable {
            slots,
            base_address,
            end_address,
            entry_points,
            ro_segments: Vec::new(),
        };
        assert(r.entries() =~= seq![entry_point]);
        r
    }

    /// Add a read-only segment for constant propagation.
    pub fn add_ro_segment(&mut self, start: u64, end: u64, data: Vec<u8>)
        ensures
            final(self).segments().len() == old(self).segments().len() + 1,
            forall|i: int|
                0 <= i < old(self).segments().len() ==> #[trigger] final(self).segments()[i]
                    == old(self).segments()[i],
            final(self).segments().last().start == start,
            final(self).segments().last().end == end,
            final(self).segments().last().data@ == data@,
            final(self).num_slots() == old(self).num_slots(),
            forall|i: int|
                #[trigger] final(self).instr_at(i) == old(self).instr_at(i) && final(self).size_at(i)
                    == old(self).size_at(i) && final(self).raw_at(i) == old(self).raw_at(i),
            final(self).base() == old(self).base(),
            final(self).end() == old(self).end(),
            final(self).entries() == old(self).entries(),
    {
        self.ro_segments.push(RoSegment::new(start, end, data));
    }

    /// The read-only segments.
    pub fn ro_segments(&self) -> (r: &[RoSegment])
        ensures
            r@ == self.segments(),
    {
        self.ro_segments.as_slice()
    }

    /// Start of the code range.
    pub fn base_address(&self) -> (r: u64)
        ensures
            r == self.base(),
    {
        self.base_address
    }

    /// End of the code range (exclusive).
    pub fn end_address(&self) -> (r: u64)
        ensures
            r == self.end(),
    {
        self.end_address
    }

    /// The entry points for the analysis.
    pub fn entry_points(&self) -> (r: &[u64])
        ensures
            r@ == self.entries(),
    {
        self.entry_points.as_slice()
    }

    /// Add an entry point unless it is one already.
    pub fn add_entry_point(&mut self, addr: u64)
        ensures
            final(self).entries() == if old(self).entries().contains(addr) {
                old(self).entries()
            } else {
                old(self).entries().push(addr)
            },
            final(self).num_slots() == old(self).num_slots(),
            forall|i: int|
                #[trigger] final(self).instr_at(i) == old(self).instr_at(i) && final(self).size_at(i)
                    == old(self).size_at(i) && final(self).raw_at(i) == old(self).raw_at(i),
            final(self).base() == old(self).base(),
            final(self).end() == old(self).end(),
            final(self).segments() == old(self).segments(),
    {
        let mut k: usize = 0;
        while k < self.entry_points.len()
            invariant
                k <= self.entry_points@.len(),
                forall|j: int| 0 <= j < k ==> self.entry_points@[j] != addr,
            decreases self.entry_points.len() - k,
        {
            if self.entry_points[k] == addr {
                assert(self.entry_points@[k as int] == addr);
                return ;
            }
            k += 1;
        }
        self.entry_points.push(addr);
    }

    /// Add several entry points, each unless it is one already.
    pub fn add_entry_points(&mut self, addrs: &[u64])
        ensures
            final(self).entries() == with_entries(old(self).entries(), addrs@, addrs@.len() as int),
            final(self).num_slots() == old(self).num_slots(),
            forall|i: int|
                #[trigger] final(self).instr_at(i) == old(self).instr_at(i) && final(self).size_at(i)
                    == old(self).size_at(i) && final(self).raw_at(i) == old(self).raw_at(i),
            final(self).base() == old(self).base(),
            final(self).end() == old(self).end(),
            final(self).segments() == old(self).segments(),
    {
        let ghost start = *self;
        let mut k: usize = 0;
        while k < addrs.len()
            invariant
                k <= addrs@.len(),
                self.entries() == with_entries(start.entries(), addrs@, k as int),
                self.num_slots() == start.num_slots(),
                forall|i: int|
                    #[trigger] self.instr_at(i) == start.instr_at(i) && self.size_at(i)
                        == start.size_at(i) && self.raw_at(i) == start.raw_at(i),
                self.base() == start.base(),
                self.end() == start.end(),
                self.segments() == start.segments(),
            decreases addrs.len() - k,
        {
            self.add_entry_point(addrs[k]);
            k += 1;
        }
    }

    /// Number of slots.
    pub fn len(&self) -> (r: usize)
        ensures
            r == self.num_slots(),
    {
        self.slots.len()
    }

    /// Whether the table has no slots.
    pub fn is_empty(&self) -> (r: bool)
        ensures
            r == (self.num_slots() == 0),
    {
        self.slots.len() == 0
    }

    /// The slot index of a pc, if it is an even offset inside the code range.
    pub fn pc_to_index(&self, pc: u64) -> (r: Option<usize>)
        ensures
            r == self.index_of(pc),
    {
        if pc < self.base_address || pc >= self.end_address {
            return None;
        }
        let off = pc - self.base_address;
        if off > usize::MAX as u64 {
            return None;
        }
        let offset = off as usize;
        if offset % SLOT_SIZE != 0 {
            return None;
        }
        Some(offset / SLOT_SIZE)
    }

    /// The pc of a slot index.
    pub fn index_to_pc(&self, index: usize) -> (r: u64)
        requires
            self.base() + index * 2 <= u64::MAX,
        ensures
            r == self.base() + index * 2,
    {
        self.base_address + (index as u64) * 2
    }

    /// Whether a slot holds an instruction.
    pub fn is_valid_index(&self, index: usize) -> (r: bool)
        ensures
            r == (self.instr_at(index as int) is Some),
    {
        if index < self.slots.len() {
            self.slots[index].instr.is_some()
        } else {
            false
        }
    }

    /// Whether a pc is the start of an instruction.
    pub fn is_valid_pc(&self, pc: u64) -> (r: bool)
        ensures
            r == (self.index_of(pc) matches Some(i) && self.instr_at(i as int) is Some),
    {
        match self.pc_to_index(pc) {
            Some(idx) => self.is_valid_index(idx),
            None => false,
        }
    }

    /// The instruction at a slot index.
    pub fn get(&self, index: usize) -> (r: Option<&CfgInstr>)
        ensures
            r matches Some(x) ==> self.instr_at(index as int) == Some(*x),
            r is None ==> self.instr_at(index as int) is None,
    {
        if index < self.slots.len() {
            match &self.slots[index].instr {
                Some(x) => Some(x),
                None => None,
            }
        } else {
            None
        }
    }

    /// The instruction at a pc.
    pub fn get_at_pc(&self, pc: u64) -> (r: Option<&CfgInstr>)
        ensures
            r matches Some(x) ==> (self.index_of(pc) matches Some(i) && self.instr_at(i as int)
                == Some(*x)),
            r is None ==> !(self.index_of(pc) matches Some(i) && self.instr_at(i as int) is Some),
    {
        match self.pc_to_index(pc) {
            Some(idx) => self.get(idx),
            None => None,
        }
    }

    /// The instruction size at a slot index (0 outside the table).
    pub fn instruction_size(&self, index: usize) -> (r: u8)
        ensures
            r == self.size_at(index as int),
    {
        if index < self.slots.len() {
            self.slots[index].size
        } else {
            0
        }
    }

    /// The instruction size at a pc (0 where it has no slot).
    pub fn instruction_size_at_pc(&self, pc: u64) -> (r: u8)
        ensures
            r == match self.index_of(pc) {
                Some(i) => self.size_at(i as int),
                None => 0,
            },
    {
        match self.pc_to_index(pc) {
            Some(idx) => self.instruction_size(idx),
            None => 0,
        }
    }

    /// The raw encoding at a slot index (0 outside the table).
    pub fn raw_opcode(&self, index: usize) -> (r: u32)
        ensures
            r == self.raw_at(index as int),
    {
        if index < self.slots.len() {
            self.slots[index].raw
        } else {
            0
        }
    }

    /// The raw encoding at a pc (0 where it has no slot).
    pub fn raw_opcode_at_pc(&self, pc: u64) -> (r: u32)
        ensures
            r == match self.index_of(pc) {
                Some(i) => self.raw_at(i as int),
                None => 0,
            },
    {
        match self.pc_to_index(pc) {
            Some(idx) => self.raw_opcode(idx),
            None => 0,
        }
    }

    /// A little-endian value of `size` bytes from the first read-only
    /// segment that holds them.
    pub fn read_readonly(&self, addr: u64, size: usize) -> (r: Option<u64>)
        requires
            size <= 8,
        ensures
            r == first_read(self.segments(), addr, size as int, self.segments().len() as int),
    {
        let mut k: usize = 0;
        while k < self.ro_segments.len()
            invariant
                k <= self.ro_segments@.len(),
                size <= 8,
                first_read(self.segments(), addr, size as int, k as int) is None,
            decreases self.ro_segments.len() - k,
        {
            match self.ro_segments[k].read(addr, size) {
                Some(v) => {
                    proof {
                        lemma_first_read_stays(self.segments(), addr, size as int, k as int + 1, self.segments().len() as int);
                    }
                    return Some(v);
                },
                None => {},
            }
            k += 1;
        }
        None
    }

    /// The pc after the instruction at a slot index.
    pub fn next_pc(&self, index: usize) -> (r: u64)
        requires
            self.base() + index * 2 + self.size_at(index as int) <= u64::MAX,
        ensures
            r == self.base() + index * 2 + self.size_at(index as int),
    {
        let size = self.instruction_size(index);
        self.index_to_pc(index) + size as u64
    }

    /// The slot indices that hold an instruction, in order.
    pub fn valid_indices(&self) -> (r: Vec<usize>)
        ensures
            forall|j: int| 0 <= j < r@.len() ==> self.instr_at(#[trigger] r@[j] as int) is Some,
            forall|i: int|
                0 <= i < self.num_slots() && self.instr_at(i) is Some ==> r@.contains(i as usize),
            forall|a: int, b: int| 0 <= a < b < r@.len() ==> r@[a] < r@[b],
    {
        let mut r: Vec<usize> = Vec::new();
        let mut k: usize = 0;
        while k < self.slots.len()
            invariant
                k <= self.slots@.len(),
                forall|j: int| 0 <= j < r@.len() ==> self.instr_at(#[trigger] r@[j] as int) is Some,
                forall|j: int| 0 <= j < r@.len() ==> #[trigger] r@[j] < k,
                forall|i: int| 0 <= i < k && self.instr_at(i) is Some ==> r@.contains(i as usize),
                forall|a: int, b: int| 0 <= a < b < r@.len() ==> r@[a] < r@[b],
            decreases self.slots.len() - k,
        {
            if self.slots[k].instr.is_some() {
                let ghost before = r@;
                r.push(k);
                proof {
                    assert forall|i: int| 0 <= i < k + 1 && self.instr_at(i) is Some implies r@.contains(
                        i as usize,
                    ) by {
                        if i < k {
                            let j = choose|j: int| 0 <= j < before.len() && before[j] == i as usize;
                            assert(r@[j] == i as usize);
                        } else {
                            assert(r@[before.len() as int] == k);
                        }
                    }
                }
            }
            k += 1;
        }
        r
    }
}

/// Once one of the first `k` segments reads, the first `n >= k` read the same.
proof fn lemma_first_read_stays(segs: Seq<RoSegment>, addr: u64, size: int, k: int, n: int)
    requires
        0 <= k <= n,
        first_read(segs, addr, size, k) is Some,
    ensures
        first_read(segs, addr, size, n) == first_read(segs, addr, size, k),
    decreases n - k,
{
    if k < n {
        lemma_first_read_stays(segs, addr, size, k, n - 1);
    }
}

} // verus!
