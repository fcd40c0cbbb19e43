use rvr::instruction_table::InstructionTable;

#[test]
fn table_indexing_and_entry_points() {
    let mut t = InstructionTable::new(0x1000, 0x1005, 0x1000);
    assert_eq!(t.len(), 3);
    assert!(!t.is_empty());
    assert_eq!(t.base_address(), 0x1000);
    assert_eq!(t.end_address(), 0x1005);
    assert_eq!(t.pc_to_index(0x1000), Some(0));
    assert_eq!(t.pc_to_index(0x1002), Some(1));
    assert_eq!(t.pc_to_index(0x1001), None);
    assert_eq!(t.pc_to_index(0x1005), None);
    assert_eq!(t.pc_to_index(0x0ffe), None);
    assert_eq!(t.index_to_pc(2), 0x1004);
    assert!(!t.is_valid_pc(0x1000));
    assert!(!t.is_valid_index(7));
    assert!(t.get_at_pc(0x1002).is_none());
    assert_eq!(t.instruction_size_at_pc(0x1002), 0);
    assert_eq!(t.raw_opcode(9), 0);
    assert_eq!(t.next_pc(1), 0x1002);
    assert!(t.valid_indices().is_empty());

    t.add_entry_point(0x1000);
    assert_eq!(t.entry_points(), &[0x1000]);
    t.add_entry_points(&[0x1004, 0x1000, 0x1004, 0x1002]);
    assert_eq!(t.entry_points(), &[0x1000, 0x1004, 0x1002]);

    t.add_ro_segment(0x2000, 0x2008, vec![1, 2, 3, 4, 5, 6, 7, 8]);
    t.add_ro_segment(0x2000, 0x2010, vec![9; 16]);
    assert_eq!(t.ro_segments().len(), 2);
    assert_eq!(t.read_readonly(0x2000, 2), Some(0x0201));
    assert_eq!(t.read_readonly(0x2008, 1), Some(9));
    assert_eq!(t.read_readonly(0x2010, 1), None);
}

#[test]
fn empty_table() {
    let t = InstructionTable::new(0x400, 0x400, 0x400);
    assert!(t.is_empty());
    assert_eq!(t.pc_to_index(0x400), None);
}
