use rvr::decoder::{CfgInstr, CfgInstrKind};

#[test]
fn test_decode_lui() {
    // lui x1, 0x12345
    let raw = 0x12345_0b7;
    let decoded = CfgInstr::decode(raw, 4);
    assert_eq!(decoded.kind, CfgInstrKind::Lui);
    assert_eq!(decoded.rd, 1);
    assert_eq!(decoded.imm, 0x12345000u32 as i32);
}

#[test]
fn test_decode_jal() {
    // jal x1, 8 (0x008000ef)
    let raw = 0x008000efu32;
    let decoded = CfgInstr::decode(raw, 4);
    assert_eq!(decoded.kind, CfgInstrKind::Jal);
    assert_eq!(decoded.rd, 1);
    assert_eq!(decoded.imm, 8);
}

#[test]
fn test_decode_branch() {
    // beq x1, x2, 4
    let raw = 0x00208263u32;
    let decoded = CfgInstr::decode(raw, 4);
    assert_eq!(decoded.kind, CfgInstrKind::Branch);
    assert_eq!(decoded.rs1, 1);
    assert_eq!(decoded.rs2, 2);
}

#[test]
fn test_is_call() {
    // jal ra, 0
    let jal = CfgInstr {
        kind: CfgInstrKind::Jal,
        rd: 1,
        rs1: -1,
        rs2: -1,
        imm: 0,
        width: 0,
        is_unsigned: false,
    };
    assert!(jal.is_call());
    assert!(jal.is_static_call());

    // j 0 (jal x0, 0)
    let j = CfgInstr {
        kind: CfgInstrKind::Jal,
        rd: 0,
        rs1: -1,
        rs2: -1,
        imm: 0,
        width: 0,
        is_unsigned: false,
    };
    assert!(!j.is_call());
}

#[test]
fn test_is_return() {
    // ret (jalr x0, ra, 0)
    let ret = CfgInstr {
        kind: CfgInstrKind::Jalr,
        rd: 0,
        rs1: 1,
        rs2: -1,
        imm: 0,
        width: 0,
        is_unsigned: false,
    };
    assert!(ret.is_return());
    assert!(!ret.is_call());
}

#[test]
fn decode_negative_branch_offset() {
    // beq x0, x0, -4 : imm = -4
    let d = CfgInstr::decode(0xfe000ee3, 4);
    assert_eq!(d.kind, CfgInstrKind::Branch);
    assert_eq!(d.imm, -4);
    assert_eq!(d.rs1, 0);
    assert_eq!(d.rs2, 0);
}

#[test]
fn decode_negative_jal_offset() {
    // jal x0, -8
    let d = CfgInstr::decode(0xff9ff06f, 4);
    assert_eq!(d.kind, CfgInstrKind::Jal);
    assert_eq!(d.rd, 0);
    assert_eq!(d.imm, -8);
}

#[test]
fn decode_addi_and_loads() {
    // addi a0, sp, -16
    let d = CfgInstr::decode(0xff010513, 4);
    assert_eq!(d.kind, CfgInstrKind::Addi);
    assert_eq!((d.rd, d.rs1, d.imm), (10, 2, -16));
    // lbu a1, 3(a0)
    let d = CfgInstr::decode(0x00354583, 4);
    assert_eq!(d.kind, CfgInstrKind::Load);
    assert_eq!((d.rd, d.rs1, d.imm, d.width, d.is_unsigned), (11, 10, 3, 1, true));
    // ld ra, 8(sp)
    let d = CfgInstr::decode(0x00813083, 4);
    assert_eq!((d.kind, d.width, d.is_unsigned, d.imm), (CfgInstrKind::Load, 8, false, 8));
    // sw a0, -4(sp)
    let d = CfgInstr::decode(0xfea12e23, 4);
    assert_eq!((d.kind, d.rs1, d.rs2, d.imm, d.width), (CfgInstrKind::Store, 2, 10, -4, 4));
}

#[test]
fn decode_add_sub_auipc_jalr() {
    // add a0, a1, a2
    let d = CfgInstr::decode(0x00c58533, 4);
    assert_eq!((d.kind, d.rd, d.rs1, d.rs2), (CfgInstrKind::Add, 10, 11, 12));
    // sub a0, a1, a2 -> unknown that writes a0
    let d = CfgInstr::decode(0x40c58533, 4);
    assert_eq!((d.kind, d.rd, d.rs1), (CfgInstrKind::Unknown, 10, -1));
    // auipc t0, 0x1
    let d = CfgInstr::decode(0x00001297, 4);
    assert_eq!((d.kind, d.rd, d.imm), (CfgInstrKind::Auipc, 5, 0x1000));
    // jalr ra, 16(t1)
    let d = CfgInstr::decode(0x010300e7, 4);
    assert_eq!((d.kind, d.rd, d.rs1, d.imm), (CfgInstrKind::Jalr, 1, 6, 16));
    assert!(d.is_call());
    assert!(!d.is_indirect_jump());
}

#[test]
fn decode_compressed_forms() {
    // c.jr ra (ret)
    let d = CfgInstr::decode(0x8082, 2);
    assert!(d.is_return());
    // c.mv a0, a1
    let d = CfgInstr::decode(0x852e, 2);
    assert_eq!((d.kind, d.rd, d.rs1), (CfgInstrKind::Move, 10, 11));
    // c.li a0, -1
    let d = CfgInstr::decode(0x557d, 2);
    assert_eq!((d.kind, d.rd, d.rs1, d.imm), (CfgInstrKind::Addi, 10, 0, -1));
    // c.addi sp, -32
    let d = CfgInstr::decode(0x1101, 2);
    assert_eq!((d.kind, d.rd, d.rs1, d.imm), (CfgInstrKind::Addi, 2, 2, -32));
    // c.addi16sp sp, -32
    let d = CfgInstr::decode(0x713d, 2);
    assert_eq!((d.kind, d.rd, d.rs1, d.imm), (CfgInstrKind::Addi, 2, 2, -32));
    // c.j -2
    let d = CfgInstr::decode(0xbffd, 2);
    assert_eq!((d.kind, d.rd, d.imm), (CfgInstrKind::Jal, 0, -2));
    // c.beqz a0, 8
    let d = CfgInstr::decode(0xc501, 2);
    assert_eq!((d.kind, d.rs1, d.rs2, d.imm), (CfgInstrKind::Branch, 10, 0, 8));
    // c.bnez a0, 8 : rs2 is -1
    let d = CfgInstr::decode(0xe501, 2);
    assert_eq!((d.kind, d.rs1, d.rs2, d.imm), (CfgInstrKind::Branch, 10, -1, 8));
    // c.lwsp a0, 12(sp)
    let d = CfgInstr::decode(0x4532, 2);
    assert_eq!((d.kind, d.rd, d.rs1, d.imm, d.width), (CfgInstrKind::Load, 10, 2, 12, 4));
    // c.sdsp ra, 8(sp)
    let d = CfgInstr::decode(0xe406, 2);
    assert_eq!((d.kind, d.rs1, d.rs2, d.imm, d.width), (CfgInstrKind::Store, 2, 1, 8, 8));
    // c.lui a5, 0x1
    let d = CfgInstr::decode(0x6785, 2);
    assert_eq!((d.kind, d.rd, d.imm), (CfgInstrKind::Lui, 15, 0x1000));
    // c.addi4spn a0, sp, 16
    let d = CfgInstr::decode(0x0808, 2);
    assert_eq!((d.kind, d.rd, d.rs1, d.imm), (CfgInstrKind::Addi, 10, 2, 16));
    // c.lwsp with rd = x0 is reserved
    let d = CfgInstr::decode(0x4002, 2);
    assert_eq!(d, CfgInstr::unknown());
}

#[test]
fn extend_loaded_values() {
    assert_eq!(CfgInstr::extend_loaded_value(0x1ff, 1, false), 0xffff_ffff_ffff_ffff);
    assert_eq!(CfgInstr::extend_loaded_value(0x1ff, 1, true), 0xff);
    assert_eq!(CfgInstr::extend_loaded_value(0x7f, 1, false), 0x7f);
    assert_eq!(CfgInstr::extend_loaded_value(0x1_8000, 2, false), 0xffff_ffff_ffff_8000);
    assert_eq!(CfgInstr::extend_loaded_value(0x8000_0000, 4, false), 0xffff_ffff_8000_0000);
    assert_eq!(CfgInstr::extend_loaded_value(0x8000_0000, 4, true), 0x8000_0000);
    assert_eq!(CfgInstr::extend_loaded_value(0xdead_beef_0000_0001, 8, false), 0xdead_beef_0000_0001);
}
