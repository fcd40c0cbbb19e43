use std::collections::HashSet;

use rvr::analyzer::{add_signed, binary_search_le, CodeView};
use rvr::cfg::{invert, CfgAnalyzer, CfgResult};
use rvr::config::Xlen;
use rvr::elf::defs::{PF_R, PF_X};
use rvr::elf::image::{ElfImage, MemorySegment};
use rvr::instruction_table::RoSegment;

#[test]
fn test_add_signed() {
    assert_eq!(add_signed(0x1000, 8), 0x1008);
    assert_eq!(add_signed(0x1000, -8), 0x0FF8);
}

#[test]
fn add_signed_wraps() {
    assert_eq!(add_signed(0, -1), u64::MAX);
    assert_eq!(add_signed(u64::MAX, 1), 0);
}

#[test]
fn test_binary_search_le() {
    let sorted = vec![10, 20, 30, 40, 50];
    assert_eq!(binary_search_le(&sorted, 25), 20);
    assert_eq!(binary_search_le(&sorted, 30), 30);
    assert_eq!(binary_search_le(&sorted, 5), 0);
    assert_eq!(binary_search_le(&sorted, 55), 50);
    assert_eq!(binary_search_le(&[], 55), 0);
}

#[test]
fn ro_segment_reads() {
    let seg = RoSegment::new(0x100, 0x110, vec![1, 2, 3, 4, 5, 6, 7, 8, 9, 10]);
    assert!(seg.contains(0x100));
    assert!(!seg.contains(0x110));
    assert_eq!(seg.read(0x100, 4), Some(0x0403_0201));
    assert_eq!(seg.read(0x102, 8), Some(0x0a09_0807_0605_0403));
    assert_eq!(seg.read(0x103, 8), None); // past the data
    assert_eq!(seg.read(0x10e, 4), None); // past the end
    assert_eq!(seg.read(0x0ff, 1), None);
}

fn code(words: &[u32]) -> Vec<u8> {
    words.iter().flat_map(|w| w.to_le_bytes()).collect()
}

/// 0x1000: addi x1, x0, 1
/// 0x1004: beq  x1, x0, +8     (to 0x100c)
/// 0x1008: jal  x1, +8         (call 0x1010)
/// 0x100c: jal  x0, 0          (spin)
/// 0x1010: jalr x0, 0(x1)      (return)
fn sample_program() -> ElfImage {
    let bytes = code(&[0x0010_0093, 0x0000_8463, 0x0080_00ef, 0x0000_006f, 0x0000_8067]);
    ElfImage::from_bytecode(bytes, 0x1000)
}

fn set(v: &[u64]) -> HashSet<u64> {
    v.iter().copied().collect()
}

#[test]
fn code_view_reads() {
    let mut image = sample_program();
    image.memory_segments.push(MemorySegment {
        virtual_start: 0x2000,
        virtual_end: 0x2010,
        data: vec![0x10, 0x10, 0, 0, 0, 0, 0, 0],
        flags: PF_R,
    });
    let view = CodeView::from_image(&image);
    assert_eq!(view.base_address, 0x1000);
    assert_eq!(view.end_address, 0x1014);
    assert!(view.is_valid_pc(0x1010));
    assert!(!view.is_valid_pc(0x1014));
    assert_eq!(view.read_instr(0x1000), Some((0x0010_0093, 4)));
    assert_eq!(view.read_instr(0x1014), None);
    assert_eq!(view.read_readonly_value(0x2000, 8), Some(0x1010));
    assert_eq!(view.read_readonly_value(0x2000, 3), None);
    assert_eq!(view.read_readonly_value(0x2008, 4), None); // BSS
    // the code segment is executable and read-only too
    assert_eq!(view.read_readonly_value(0x1000, 4), Some(0x0010_0093));
}

#[test]
fn compressed_instruction_fetch() {
    // c.nop (0x0001) followed by a 4-byte instruction
    let image = ElfImage::from_bytecode(vec![0x01, 0x00, 0x93, 0x00, 0x10, 0x00], 0x400);
    let view = CodeView::from_image(&image);
    assert_eq!(view.read_instr(0x400), Some((0x0001, 2)));
    assert_eq!(view.read_instr(0x402), Some((0x0010_0093, 4)));
    // mid-instruction bytes read as a compressed halfword
    assert_eq!(view.read_instr(0x404), Some((0x0010, 2)));
    assert_eq!(view.read_instr(0x406), None);
    // a full instruction needs four bytes
    let image = ElfImage::from_bytecode(vec![0x93, 0x00, 0x10], 0x400);
    assert_eq!(CodeView::from_image(&image).read_instr(0x400), None);
}

#[test]
fn analyze_small_program() {
    let image = sample_program();
    let analyzer = CfgAnalyzer::new(&image, Xlen::Rv64);
    let r: CfgResult = analyzer.analyze();
    // the linear scan still holds x1 = 0x100c (set by the call) at the
    // return, so the return target is taken as a function entry too
    assert_eq!(r.function_entries, set(&[0x1000, 0x100c, 0x1010]));
    assert_eq!(r.internal_targets, set(&[0x1008, 0x100c]));
    assert_eq!(r.successors[&0x1000], set(&[0x1004]));
    assert_eq!(r.successors[&0x1004], set(&[0x1008, 0x100c]));
    assert_eq!(r.successors[&0x1008], set(&[0x100c, 0x1010]));
    assert_eq!(r.successors[&0x100c], set(&[0x100c]));
    assert_eq!(r.successors[&0x1010], set(&[0x100c]));
    assert_eq!(r.leaders, set(&[0x1000, 0x1008, 0x100c, 0x1010]));
    assert_eq!(r.block_to_function[&0x1008], 0x1000);
    assert_eq!(r.block_to_function[&0x100c], 0x100c);
    assert_eq!(r.block_to_function[&0x1010], 0x1010);
    assert_eq!(r.predecessors[&0x100c], set(&[0x1004, 0x1008, 0x100c, 0x1010]));
    assert_eq!(r.predecessors[&0x1010], set(&[0x1008]));
    assert_eq!(r.call_return_map[&0x1010], set(&[0x100c]));
    assert!(r.unresolved_jumps.is_empty());
    // every successor edge appears as a predecessor edge and back
    for (p, succs) in &r.successors {
        for q in succs {
            assert!(r.predecessors[q].contains(p));
        }
    }
}

#[test]
fn analysis_runs_to_completion() {
    let image = sample_program();
    let analyzer = CfgAnalyzer::new(&image, Xlen::Rv64);
    let (r, status) = analyzer.analyze_with_status();
    assert!(status.complete);
    assert!(status.rounds <= 0x14 * 20);
    // every pc with successors has a register state
    for pc in r.successors.keys() {
        assert!(status.states.contains_key(pc));
    }
    // the entry point and every successor in the code range are visited
    assert!(r.successors.contains_key(&0x1000));
    for succs in r.successors.values() {
        for q in succs {
            if (0x1000..0x1014).contains(q) {
                assert!(r.successors.contains_key(q));
            }
        }
    }
    for a in r.function_entries.iter().chain(r.internal_targets.iter()) {
        assert!(r.successors.contains_key(a));
    }
}

#[test]
fn invert_is_inverse() {
    let mut succ = std::collections::HashMap::new();
    succ.insert(1u64, set(&[2, 3]));
    succ.insert(2u64, set(&[3]));
    succ.insert(4u64, HashSet::new());
    let pred = invert(&succ);
    assert_eq!(pred.len(), 2);
    assert_eq!(pred[&2], set(&[1]));
    assert_eq!(pred[&3], set(&[1, 2]));
}

#[test]
fn indirect_jump_through_constant() {
    // 0x2000: lui  x5, 0x0        ; x5 = 0
    // 0x2004: addi x5, x5, 0x200c (too large for addi: use auipc instead)
    // Build: auipc x5, 0 ; addi x5, x5, 12 ; jalr x0, 0(x5) ; <pad> ; target: jal x0, 0
    let bytes = code(&[0x0000_0297, 0x00c2_8293, 0x0002_8067, 0x0000_0013, 0x0000_006f]);
    let image = ElfImage::from_bytecode(bytes, 0x2000);
    let r = CfgAnalyzer::new(&image, Xlen::Rv64).analyze();
    // the computed address 0x200c is taken as a function entry
    assert!(r.function_entries.contains(&0x200c));
    // and the resolved jump goes there
    assert_eq!(r.successors[&0x2008], set(&[0x200c]));
    let _ = PF_X;
}

#[test]
fn leaders_are_exactly_block_starts() {
    let image = sample_program();
    let analyzer = CfgAnalyzer::new(&image, Xlen::Rv64);
    let r = analyzer.analyze();
    // the entry, the candidate targets, the return site after the call, and
    // what each control-flow instruction adds: its successors and the next
    // instruction when that is code
    let mut expected: HashSet<u64> = set(&[0x1000]);
    expected.extend(r.function_entries.iter().copied());
    expected.extend(r.internal_targets.iter().copied());
    expected.insert(0x100c);
    for (pc, size) in [(0x1004u64, 4u64), (0x1008, 4), (0x100c, 4), (0x1010, 4)] {
        expected.extend(r.successors[&pc].iter().copied());
        if pc + size < 0x1014 {
            expected.insert(pc + size);
        }
    }
    assert_eq!(r.leaders, expected);
    // the addi at 0x1000 transfers no control, so 0x1004 starts no block
    assert!(!r.leaders.contains(&0x1004));
}

#[test]
fn register_states_follow_the_instructions() {
    let image = sample_program();
    let analyzer = CfgAnalyzer::new(&image, Xlen::Rv64);
    let (_, status) = analyzer.analyze_with_status();
    assert!(status.complete);
    // addi x1, x0, 1 at 0x1000 gives x1 = 1 at the branch
    assert_eq!(status.states[&0x1004].get(1).values(), Some(&[1u64][..]));
    // the candidate targets start from a fresh state, so x1 is unknown
    // where one of them is merged in
    assert_eq!(status.states[&0x1008].get(1).values(), None);
    assert_eq!(status.states[&0x100c].get(1).values(), None);
    assert_eq!(status.states[&0x1010].get(1).values(), None);
    // an addi chain outside any candidate target keeps its constants
    let bytes = code(&[0x0070_0293, 0x0012_8313, 0x0000_0013, 0x0000_006f]);
    let image = ElfImage::from_bytecode(bytes, 0x3000);
    let (_, status) = CfgAnalyzer::new(&image, Xlen::Rv64).analyze_with_status();
    assert!(status.complete);
    assert_eq!(status.states[&0x3004].get(5).values(), Some(&[7u64][..]));
    assert_eq!(status.states[&0x3008].get(5).values(), Some(&[7u64][..]));
    assert_eq!(status.states[&0x3008].get(6).values(), Some(&[8u64][..]));
    // x0 stays zero everywhere
    for st in status.states.values() {
        assert_eq!(st.get(0).values(), Some(&[0u64][..]));
    }
}
