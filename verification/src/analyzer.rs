//! Code access for control-flow analysis: the executable range of an ELF
//! image, instruction fetch and reads of read-only data.

use vstd::prelude::*;

use crate::bits::wrap64;
use crate::bytes::{le_value, read_le, read_le16, read_le32};
use crate::elf::image::{ElfImage, MemorySegment};
use crate::elf::defs::{PF_W, PF_X};
use crate::sorted::search_sorted;

verus! {

/// Add a signed immediate to an address (wrapping).
pub fn add_signed(base: u64, imm: i32) -> (r: u64)
    ensures
        r == wrap64(base + imm),
{
    base.wrapping_add_signed(imm as i64)
}

/// The largest element of `s` that is at most `target`.
pub open spec fn is_floor(s: Seq<u64>, target: u64, r: u64) -> bool {
    &&& s.contains(r)
    &&& r <= target
    &&& forall|k: int| 0 <= k < s.len() && s[k] <= target ==> s[k] <= r
}

/// The largest element of `s` that is at most `target`, or 0 when there is none.
pub open spec fn floor_value(s: Seq<u64>, target: u64) -> u64 {
    if exists|k: int| 0 <= k < s.len() && s[k] <= target {
        choose|r: u64| is_floor(s, target, r)
    } else {
        0
    }
}

/// The largest element at most a target is unique.
pub proof fn lemma_floor_unique(s: Seq<u64>, target: u64, r: u64)
    requires
        is_floor(s, target, r),
    ensures
        floor_value(s, target) == r,
{
    let k = choose|k: int| 0 <= k < s.len() && s[k] == r;
    assert(s[k] <= target);
    let c = choose|c: u64| is_floor(s, target, c);
    assert(is_floor(s, target, c));
    let kc = choose|kc: int| 0 <= kc < s.len() && s[kc] == c;
    assert(s[kc] <= target);
}

/// The largest element of a sorted slice that is at most `target`, or 0
/// when there is none.
pub fn binary_search_le(sorted: &[u64], target: u64) -> (r: u64)
    requires
        crate::sorted::sorted(sorted@),
    ensures
        r == floor_value(sorted@, target),
        (exists|k: int| 0 <= k < sorted@.len() && sorted@[k] <= target) ==> is_floor(
            sorted@,
            target,
            r,
        ),
        !(exists|k: int| 0 <= k < sorted@.len() && sorted@[k] <= target) ==> r == 0,
{
    if sorted.len() == 0 {
        return 0;
    }
    match search_sorted(sorted, target) {
        Ok(i) => {
            proof {
                assert(sorted@[i as int] == target);
                lemma_floor_unique(sorted@, target, target);
            }
            sorted[i]
        },
        Err(p) => {
            if p == 0 {
                assert(forall|k: int| 0 <= k < sorted@.len() ==> sorted@[k] > target);
                0
            } else {
                assert(sorted@[p - 1] < target);
                proof {
                    lemma_floor_unique(sorted@, target, sorted@[p - 1]);
                }
                sorted[p - 1]
            }
        },
    }
}

/// The largest element of `s` that is at most `target`.
pub open spec fn is_set_floor(s: Set<u64>, target: u64, r: u64) -> bool {
    &&& s.contains(r)
    &&& r <= target
    &&& forall|x: u64| s.contains(x) && x <= target ==> x <= r
}

/// The largest element of a set that is at most `target`, or 0 when there is none.
pub open spec fn set_floor(s: Set<u64>, target: u64) -> u64 {
    if exists|x: u64| s.contains(x) && x <= target {
        choose|r: u64| is_set_floor(s, target, r)
    } else {
        0
    }
}

/// Among the elements at most a target, a sequence has a largest one.
proof fn lemma_floor_exists(s: Seq<u64>, target: u64)
    requires
        exists|k: int| 0 <= k < s.len() && s[k] <= target,
    ensures
        exists|r: u64| is_floor(s, target, r),
    decreases s.len(),
{
    let p = s.drop_last();
    let last = s.last();
    if exists|k: int| 0 <= k < p.len() && p[k] <= target {
        lemma_floor_exists(p, target);
        let r0 = choose|r: u64| is_floor(p, target, r);
        let k0 = choose|k: int| 0 <= k < p.len() && p[k] == r0;
        assert(s[k0] == r0);
        if last <= target && last > r0 {
            assert(s[s.len() - 1] == last);
            assert(is_floor(s, target, last)) by {
                assert forall|k: int| 0 <= k < s.len() && s[k] <= target implies s[k] <= last by {
                    if k < s.len() - 1 {
                        assert(p[k] == s[k]);
                    }
                }
            }
        } else {
            assert(is_floor(s, target, r0)) by {
                assert forall|k: int| 0 <= k < s.len() && s[k] <= target implies s[k] <= r0 by {
                    if k < s.len() - 1 {
                        assert(p[k] == s[k]);
                    }
                }
            }
        }
    } else {
        assert(last <= target) by {
            let k = choose|k: int| 0 <= k < s.len() && s[k] <= target;
            if k < s.len() - 1 {
                assert(p[k] == s[k]);
            }
        }
        assert(s[s.len() - 1] == last);
        assert(is_floor(s, target, last)) by {
            assert forall|k: int| 0 <= k < s.len() && s[k] <= target implies s[k] <= last by {
                if k < s.len() - 1 {
                    assert(p[k] == s[k]);
                }
            }
        }
    }
}

/// The floor in a sequence is the floor in the set of its elements.
pub proof fn lemma_floor_value_set(s: Seq<u64>, target: u64)
    ensures
        floor_value(s, target) == set_floor(s.to_set(), target),
{
    let st = s.to_set();
    if exists|k: int| 0 <= k < s.len() && s[k] <= target {
        lemma_floor_exists(s, target);
        let r = choose|r: u64| is_floor(s, target, r);
        lemma_floor_unique(s, target, r);
        let k = choose|k: int| 0 <= k < s.len() && s[k] == r;
        assert(st.contains(r));
        assert(is_set_floor(st, target, r)) by {
            assert forall|x: u64| st.contains(x) && x <= target implies x <= r by {
                let j = choose|j: int| 0 <= j < s.len() && s[j] == x;
            }
        }
        assert(exists|x: u64| st.contains(x) && x <= target);
        let c = choose|c: u64| is_set_floor(st, target, c);
        assert(is_set_floor(st, target, c));
        assert(c <= r && r <= c);
    } else {
        assert(!exists|x: u64| st.contains(x) && x <= target) by {
            if exists|x: u64| st.contains(x) && x <= target {
                let x = choose|x: u64| st.contains(x) && x <= target;
                let j = choose|j: int| 0 <= j < s.len() && s[j] == x;
            }
        }
    }
}

/// Whether a segment is executable.
pub open spec fn seg_exec(s: MemorySegment) -> bool {
    s.flags & PF_X != 0
}

/// Whether a segment is read-only.
pub open spec fn seg_readonly(s: MemorySegment) -> bool {
    s.flags & PF_W == 0
}

/// Lowest start of the executable segments among the first `n` (`u64::MAX` if none).
pub open spec fn exec_base(segs: Seq<MemorySegment>, n: int) -> u64
    decreases n,
{
    if n <= 0 {
        u64::MAX
    } else {
        let b = exec_base(segs, n - 1);
        if seg_exec(segs[n - 1]) && segs[n - 1].virtual_start < b {
            segs[n - 1].virtual_start
        } else {
            b
        }
    }
}

/// Highest end of the executable segments among the first `n` (0 if none).
pub open spec fn exec_end(segs: Seq<MemorySegment>, n: int) -> u64
    decreases n,
{
    if n <= 0 {
        0
    } else {
        let e = exec_end(segs, n - 1);
        if seg_exec(segs[n - 1]) && segs[n - 1].virtual_end > e {
            segs[n - 1].virtual_end
        } else {
            e
        }
    }
}

/// Index of the first of the first `n` segments whose range holds `pc`.
pub open spec fn segment_of_pc(segs: Seq<MemorySegment>, pc: u64, n: int) -> Option<int>
    decreases n,
{
    if n <= 0 {
        None
    } else {
        match segment_of_pc(segs, pc, n - 1) {
            Some(i) => Some(i),
            None => if segs[n - 1].virtual_start <= pc < segs[n - 1].virtual_end {
                Some(n - 1)
            } else {
                None
            },
        }
    }
}

/// The instruction at byte `offset` of segment data: compressed when the low
/// two bits of the first halfword are not both set.
pub open spec fn instr_in(data: Seq<u8>, offset: int) -> Option<(u32, u8)> {
    if offset + 2 > data.len() {
        None
    } else if le_value(data.subrange(offset, offset + 2)) % 4 != 3 {
        Some((le_value(data.subrange(offset, offset + 2)) as u32, 2u8))
    } else if offset + 4 > data.len() {
        None
    } else {
        Some((le_value(data.subrange(offset, offset + 4)) as u32, 4u8))
    }
}

/// The instruction at `pc` in an image's segments.
pub open spec fn instr_at(segs: Seq<MemorySegment>, pc: u64) -> Option<(u32, u8)> {
    match segment_of_pc(segs, pc, segs.len() as int) {
        None => None,
        Some(i) => instr_in(segs[i].data@, pc - segs[i].virtual_start),
    }
}

/// Index of the first of the first `n` read-only segments holding `width`
/// bytes at `addr`.
pub open spec fn ro_segment_for(segs: Seq<MemorySegment>, addr: u64, width: int, n: int) -> Option<
    int,
>
    decreases n,
{
    if n <= 0 {
        None
    } else {
        match ro_segment_for(segs, addr, width, n - 1) {
            Some(i) => Some(i),
            None => {
                let s = segs[n - 1];
                if seg_readonly(s) && s.virtual_start <= addr && addr + width <= s.virtual_end {
                    Some(n - 1)
                } else {
                    None
                }
            },
        }
    }
}

/// The value of `width` bytes (1, 2, 4 or 8) of read-only data at `addr`.
pub open spec fn readonly_value(segs: Seq<MemorySegment>, addr: u64, width: int) -> Option<u64> {
    match ro_segment_for(segs, addr, width, segs.len() as int) {
        None => None,
        Some(i) => {
            let data = segs[i].data@;
            let offset = addr - segs[i].virtual_start;
            if offset + width > data.len() {
                None
            } else if width == 1 || width == 2 || width == 4 || width == 8 {
                Some(le_value(data.subrange(offset, offset + width)) as u64)
            } else {
                None
            }
        },
    }
}

/// Code view for accessing instruction bytes and segment info.
pub struct CodeView<'a> {
    pub image: &'a ElfImage,
    pub entry_point: u64,
    pub base_address: u64,
    pub end_address: u64,
}

impl<'a> CodeView<'a> {
    /// The code range of an image: from the lowest start to the highest end
    /// of its executable segments.
    pub fn from_image(image: &'a ElfImage) -> (r: Self)
        ensures
            r.image == image,
            r.entry_point == image.entry_point,
            r.base_address == exec_base(image.memory_segments@, image.memory_segments@.len() as int),
            r.end_address == exec_end(image.memory_segments@, image.memory_segments@.len() as int),
    {
        let mut base: u64 = u64::MAX;
        let mut end: u64 = 0;
        let mut k: usize = 0;
        while k < image.memory_segments.len()
            invariant
                k <= image.memory_segments@.len(),
                base == exec_base(image.memory_segments@, k as int),
                end == exec_end(image.memory_segments@, k as int),
            decreases image.memory_segments.len() - k,
        {
            let seg = &image.memory_segments[k];
            if seg.is_executable() {
                if seg.virtual_start < base {
                    base = seg.virtual_start;
                }
                if seg.virtual_end > end {
                    end = seg.virtual_end;
                }
            }
            k += 1;
        }
        CodeView { image, entry_point: image.entry_point, base_address: base, end_address: end }
    }

    /// Whether `pc` lies in the code range.
    pub open spec fn valid_pc(&self, pc: u64) -> bool {
        self.base_address <= pc < self.end_address
    }

    /// Whether `pc` lies in the code range.
    pub fn is_valid_pc(&self, pc: u64) -> (r: bool)
        ensures
            r == self.valid_pc(pc),
    {
        pc >= self.base_address && pc < self.end_address
    }

    /// The instruction word and its size (2 or 4) at `pc`, if its bytes are
    /// in the file data of the first segment holding `pc`.
    pub fn read_instr(&self, pc: u64) -> (r: Option<(u32, u8)>)
        ensures
            r == instr_at(self.image.memory_segments@, pc),
    {
        let segs = &self.image.memory_segments;
        let mut k: usize = 0;
        while k < segs.len()
            invariant
                segs@ == self.image.memory_segments@,
                k <= segs@.len(),
                segment_of_pc(segs@, pc, k as int) is None,
            decreases segs.len() - k,
        {
            let seg = &segs[k];
            if pc >= seg.virtual_start && pc < seg.virtual_end {
                proof {
                    lemma_first_index_stable_pc(segs@, pc, k + 1, segs@.len() as int);
                }
                let offset = pc - seg.virtual_start;
                let len = seg.data.len();
                if offset >= len as u64 {
                    return None;
                }
                let offset = offset as usize;
                if len - offset < 2 {
                    return None;
                }
                let low = read_le16(seg.data.as_slice(), offset);
                let low_bits = low & 3;
                assert(low_bits == low % 4) by (bit_vector)
                    requires
                        low_bits == low & 3,
                ;
                if low_bits != 3 {
                    return Some((low as u32, 2));
                }
                if len - offset < 4 {
                    return None;
                }
                let raw = read_le32(seg.data.as_slice(), offset);
                return Some((raw, 4));
            }
            k += 1;
        }
        None
    }

    /// The value of `width` bytes of read-only data at `addr`: from the first
    /// read-only segment whose range holds them, if they are in its file
    /// data and the width is 1, 2, 4 or 8.
    pub fn read_readonly_value(&self, addr: u64, width: usize) -> (r: Option<u64>)
        ensures
            r == readonly_value(self.image.memory_segments@, addr, width as int),
    {
        let segs = &self.image.memory_segments;
        let mut k: usize = 0;
        while k < segs.len()
            invariant
                segs@ == self.image.memory_segments@,
                k <= segs@.len(),
                ro_segment_for(segs@, addr, width as int, k as int) is None,
            decreases segs.len() - k,
        {
            let seg = &segs[k];
            if seg.is_readonly() && addr >= seg.virtual_start && width as u64 <= seg.virtual_end
                && addr <= seg.virtual_end - width as u64 {
                proof {
                    lemma_first_ro_stable(segs@, addr, width as int, k + 1, segs@.len() as int);
                }
                let offset = addr - seg.virtual_start;
                let len = seg.data.len();
                if offset > len as u64 || width as u64 > len as u64 - offset {
                    return None;
                }
                if width == 1 || width == 2 || width == 4 || width == 8 {
                    return Some(read_le(seg.data.as_slice(), offset as usize, width));
                }
                return None;
            }
            k += 1;
        }
        None
    }
}

proof fn lemma_first_index_stable_pc(segs: Seq<MemorySegment>, pc: u64, a: int, b: int)
    requires
        0 <= a <= b,
        segment_of_pc(segs, pc, a) is Some,
    ensures
        segment_of_pc(segs, pc, b) == segment_of_pc(segs, pc, a),
    decreases b - a,
{
    if a < b {
        lemma_first_index_stable_pc(segs, pc, a, b - 1);
    }
}

proof fn lemma_first_ro_stable(segs: Seq<MemorySegment>, addr: u64, width: int, a: int, b: int)
    requires
        0 <= a <= b,
        ro_segment_for(segs, addr, width, a) is Some,
    ensures
        ro_segment_for(segs, addr, width, b) == ro_segment_for(segs, addr, width, a),
    decreases b - a,
{
    if a < b {
        lemma_first_ro_stable(segs, addr, width, a, b - 1);
    }
}

} // verus!
