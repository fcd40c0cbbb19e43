use rvr::registers::RegMap;

#[test]
fn test_reg_map_rv64() {
    let hot = vec![1, 2, 10, 11]; // ra, sp, a0, a1
    let map = RegMap::new(&hot, false);

    assert!(map.get(0).is_none()); // x0 always None
    assert_eq!(map.get(1), Some("x21")); // ra -> x21
    assert_eq!(map.get(2), Some("x22")); // sp -> x22
    assert_eq!(map.get(10), Some("x23")); // a0 -> x23
    assert_eq!(map.get(11), Some("x24")); // a1 -> x24
    assert!(map.get(12).is_none()); // a2 not hot
}

#[test]
fn test_reg_map_rv32() {
    let hot = vec![1, 2, 10];
    let map = RegMap::new(&hot, true);

    assert_eq!(map.get(1), Some("w21"));
    assert_eq!(map.get(2), Some("w22"));
    assert_eq!(map.get(10), Some("w23"));
}

#[test]
fn test_max_hot_regs() {
    // All 23 available registers
    let hot: Vec<u8> = (1..=23).collect();
    let map = RegMap::new(&hot, false);

    // First 8 go to callee-saved
    assert_eq!(map.get(1), Some("x21"));
    assert_eq!(map.get(8), Some("x28"));
    // Next go to caller-saved
    assert_eq!(map.get(9), Some("x3"));
    assert_eq!(map.get(23), Some("x17"));

    // 24th register should not be mapped
    let hot24: Vec<u8> = (1..=24).collect();
    let map24 = RegMap::new(&hot24, false);
    assert!(map24.get(24).is_none());
}

#[test]
fn test_all_31_rv_regs() {
    // Map all 31 RISC-V registers (excluding x0). There are 23 ARM64 slots
    // (HOT_REG_SLOTS, and test_max_hot_regs), so the first 23 are hot and
    // registers 24..=31 stay in memory.
    let hot: Vec<u8> = (1..=31).collect();
    let map = RegMap::new(&hot, false);
    assert!(map.is_hot(1));
    assert!(map.is_hot(23));
    assert!(!map.is_hot(24));
    assert!(!map.is_hot(25));
    assert!(!map.is_hot(31));
}

#[test]
fn reg_map_hot_lists_and_64_bit_names() {
    let map = RegMap::new(&[10, 1, 0, 40, 2], true);
    // x0 and out-of-range numbers take a slot position but are never mapped.
    assert_eq!(map.get(10), Some("w21"));
    assert_eq!(map.get(1), Some("w22"));
    assert_eq!(map.get(2), Some("w25"));
    assert_eq!(map.get_64(2), Some("x25"));
    assert!(map.is_hot(10));
    assert!(!map.is_hot(0));
    assert!(!map.is_hot(40));
    assert_eq!(map.hot_regs(), vec![(1, "w22"), (2, "w25"), (10, "w21")]);
    assert_eq!(map.hot_regs_64(), vec![(1, "x22"), (2, "x25"), (10, "x21")]);
}

#[test]
fn reg_map_repeated_register_keeps_last_slot() {
    let map = RegMap::new(&[5, 6, 5], false);
    assert_eq!(map.get(5), Some("x23"));
    assert_eq!(map.get(6), Some("x22"));
}
