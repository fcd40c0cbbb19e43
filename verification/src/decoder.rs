//! Instruction decoder for control-flow analysis.
//!
//! Only what control-flow analysis needs is decoded: branches, jumps and the
//! instructions that build jump targets (LUI, AUIPC, ADDI, ADD, moves, loads).

use vstd::prelude::*;
use vstd::arithmetic::power2::{pow2, lemma2_to64, lemma_pow2_pos};
use vstd::arithmetic::div_mod::lemma_fundamental_div_mod_converse;
use crate::bits::{field, sign_extend};

verus! {

/// Instruction classes that control-flow analysis distinguishes.
#[derive(Clone, Copy, Debug, PartialEq, Eq, Structural)]
pub enum CfgInstrKind {
    Unknown,
    Lui,
    Auipc,
    Addi,
    Add,
    Move,
    Jal,
    Jalr,
    Load,
    Store,
    Branch,
}

/// Decoded instruction for control-flow analysis.
///
/// Register fields hold -1 when the instruction has no such operand.
#[derive(Clone, Copy, Debug, PartialEq, Eq, Structural)]
pub struct CfgInstr {
    pub kind: CfgInstrKind,
    pub rd: i32,
    pub rs1: i32,
    pub rs2: i32,
    pub imm: i32,
    pub width: u8,
    pub is_unsigned: bool,
}

/// The decoded instruction with the given fields.
pub open spec fn mk_instr(
    kind: CfgInstrKind,
    rd: int,
    rs1: int,
    rs2: int,
    imm: int,
    width: u8,
    is_unsigned: bool,
) -> CfgInstr {
    CfgInstr {
        kind,
        rd: rd as i32,
        rs1: rs1 as i32,
        rs2: rs2 as i32,
        imm: imm as i32,
        width,
        is_unsigned,
    }
}

/// The instruction that carries no information.
pub open spec fn unknown_instr() -> CfgInstr {
    mk_instr(CfgInstrKind::Unknown, -1, -1, -1, 0, 0, false)
}

/// Access width of a standard load, by funct3 (0 for reserved encodings).
pub open spec fn load_width(funct3: int) -> u8 {
    if funct3 == 0 || funct3 == 4 {
        1
    } else if funct3 == 1 || funct3 == 5 {
        2
    } else if funct3 == 2 || funct3 == 6 {
        4
    } else if funct3 == 3 {
        8
    } else {
        0
    }
}

/// Access width of a standard store, by funct3 (0 for reserved encodings).
pub open spec fn store_width(funct3: int) -> u8 {
    if funct3 == 0 {
        1
    } else if funct3 == 1 {
        2
    } else if funct3 == 2 {
        4
    } else if funct3 == 3 {
        8
    } else {
        0
    }
}

/// Meaning of a 32-bit instruction word for control-flow analysis.
pub open spec fn standard_meaning(raw: u32) -> CfgInstr {
    let x = raw as int;
    let opcode = field(x, 0, 7);
    let rd = field(x, 7, 5);
    let rs1 = field(x, 15, 5);
    let rs2 = field(x, 20, 5);
    let funct3 = field(x, 12, 3);
    let funct7 = field(x, 25, 7);
    if opcode == 0x37 {
        mk_instr(CfgInstrKind::Lui, rd, -1, -1, u_imm(raw), 0, false)
    } else if opcode == 0x17 {
        mk_instr(CfgInstrKind::Auipc, rd, -1, -1, u_imm(raw), 0, false)
    } else if opcode == 0x6F {
        mk_instr(CfgInstrKind::Jal, rd, -1, -1, j_imm(raw), 0, false)
    } else if opcode == 0x67 {
        mk_instr(CfgInstrKind::Jalr, rd, rs1, -1, i_imm(raw), 0, false)
    } else if opcode == 0x63 {
        mk_instr(CfgInstrKind::Branch, -1, rs1, rs2, b_imm(raw), 0, false)
    } else if opcode == 0x03 {
        mk_instr(
            CfgInstrKind::Load,
            rd,
            rs1,
            -1,
            i_imm(raw),
            load_width(funct3),
            4 <= funct3 <= 6,
        )
    } else if opcode == 0x23 {
        mk_instr(CfgInstrKind::Store, -1, rs1, rs2, s_imm(raw), store_width(funct3), false)
    } else if opcode == 0x13 && funct3 == 0 {
        mk_instr(CfgInstrKind::Addi, rd, rs1, -1, i_imm(raw), 0, false)
    } else if opcode == 0x33 && funct3 == 0 && funct7 == 0 {
        mk_instr(CfgInstrKind::Add, rd, rs1, rs2, 0, 0, false)
    } else {
        // Any other instruction (SUB included) may still write rd.
        mk_instr(CfgInstrKind::Unknown, rd, -1, -1, 0, 0, false)
    }
}

/// Meaning of a compressed instruction in quadrant 0.
pub open spec fn quadrant0_meaning(raw: u16) -> CfgInstr {
    let x = raw as int;
    let funct3 = field(x, 13, 3);
    let r_low = field(x, 2, 3) + 8;
    let r_high = field(x, 7, 3) + 8;
    if funct3 == 0 {
        mk_instr(CfgInstrKind::Addi, r_low, 2, -1, addi4spn_imm(raw), 0, false)
    } else if funct3 == 2 {
        mk_instr(CfgInstrKind::Load, r_low, r_high, -1, cl_lw_offset(raw), 4, false)
    } else if funct3 == 3 {
        mk_instr(CfgInstrKind::Load, r_low, r_high, -1, cl_ld_offset(raw), 8, false)
    } else if funct3 == 6 {
        mk_instr(CfgInstrKind::Store, -1, r_high, r_low, cl_lw_offset(raw), 4, false)
    } else if funct3 == 7 {
        mk_instr(CfgInstrKind::Store, -1, r_high, r_low, cl_ld_offset(raw), 8, false)
    } else {
        unknown_instr()
    }
}

/// Meaning of a compressed instruction in quadrant 1.
pub open spec fn quadrant1_meaning(raw: u16) -> CfgInstr {
    let x = raw as int;
    let funct3 = field(x, 13, 3);
    let rd = field(x, 7, 5);
    let r_high = field(x, 7, 3) + 8;
    if funct3 == 0 {
        mk_instr(CfgInstrKind::Addi, rd, rd, -1, ci_imm(raw), 0, false)
    } else if funct3 == 1 {
        mk_instr(CfgInstrKind::Jal, 1, -1, -1, cj_imm(raw), 0, false)
    } else if funct3 == 2 {
        mk_instr(CfgInstrKind::Addi, rd, 0, -1, ci_imm(raw), 0, false)
    } else if funct3 == 3 && rd == 2 {
        mk_instr(CfgInstrKind::Addi, rd, rd, -1, ci16sp_imm(raw), 0, false)
    } else if funct3 == 3 {
        mk_instr(CfgInstrKind::Lui, rd, -1, -1, ci_lui_imm(raw), 0, false)
    } else if funct3 == 4 {
        mk_instr(CfgInstrKind::Unknown, r_high, -1, -1, 0, 0, false)
    } else if funct3 == 5 {
        mk_instr(CfgInstrKind::Jal, 0, -1, -1, cj_imm(raw), 0, false)
    } else {
        mk_instr(
            CfgInstrKind::Branch,
            -1,
            r_high,
            if funct3 == 6 { 0 } else { -1 },
            cb_imm(raw),
            0,
            false,
        )
    }
}

/// Meaning of a compressed instruction in quadrant 2.
pub open spec fn quadrant2_meaning(raw: u16) -> CfgInstr {
    let x = raw as int;
    let funct3 = field(x, 13, 3);
    let rd = field(x, 7, 5);
    let rs2 = field(x, 2, 5);
    let bit12 = field(x, 12, 1);
    if funct3 == 0 {
        mk_instr(CfgInstrKind::Unknown, rd, rd, -1, 0, 0, false)
    } else if funct3 == 2 && rd != 0 {
        mk_instr(CfgInstrKind::Load, rd, 2, -1, ci_lwsp_offset(raw), 4, false)
    } else if funct3 == 3 && rd != 0 {
        mk_instr(CfgInstrKind::Load, rd, 2, -1, ci_ldsp_offset(raw), 8, false)
    } else if funct3 == 4 && bit12 == 0 && rs2 == 0 {
        mk_instr(CfgInstrKind::Jalr, 0, rd, -1, 0, 0, false)
    } else if funct3 == 4 && bit12 == 0 {
        mk_instr(CfgInstrKind::Move, rd, rs2, -1, 0, 0, false)
    } else if funct3 == 4 && rs2 == 0 {
        mk_instr(CfgInstrKind::Jalr, 1, rd, -1, 0, 0, false)
    } else if funct3 == 4 {
        mk_instr(CfgInstrKind::Add, rd, rd, rs2, 0, 0, false)
    } else if funct3 == 6 {
        mk_instr(CfgInstrKind::Store, -1, 2, rs2, css_swsp_offset(raw), 4, false)
    } else if funct3 == 7 {
        mk_instr(CfgInstrKind::Store, -1, 2, rs2, css_sdsp_offset(raw), 8, false)
    } else {
        unknown_instr()
    }
}

/// Meaning of a 16-bit compressed instruction.
pub open spec fn compressed_meaning(raw: u16) -> CfgInstr {
    let quadrant = field(raw as int, 0, 2);
    if quadrant == 0 {
        quadrant0_meaning(raw)
    } else if quadrant == 1 {
        quadrant1_meaning(raw)
    } else if quadrant == 2 {
        quadrant2_meaning(raw)
    } else {
        unknown_instr()
    }
}

/// Meaning of an instruction of `size` bytes whose encoding is `raw`.
pub open spec fn instr_meaning(raw: u32, size: u8) -> CfgInstr {
    if size == 2 {
        compressed_meaning(raw as u16)
    } else {
        standard_meaning(raw)
    }
}

/// The value a load of `width` bytes leaves in its destination register.
pub open spec fn extended_value(value: u64, width: u8, is_unsigned: bool) -> int {
    let bits: nat = if width == 1 {
        8
    } else if width == 2 {
        16
    } else {
        32
    };
    if width != 1 && width != 2 && width != 4 {
        value as int
    } else if is_unsigned {
        field(value as int, 0, bits)
    } else {
        (sign_extend(field(value as int, 0, bits), bits) + 0x1_0000_0000_0000_0000)
            % 0x1_0000_0000_0000_0000
    }
}

impl Default for CfgInstr {
    fn default() -> (r: Self)
        ensures
            r == unknown_instr(),
    {
        Self::unknown()
    }
}

impl CfgInstr {
    /// The instruction that carries no information.
    pub fn unknown() -> (r: Self)
        ensures
            r == unknown_instr(),
    {
        Self {
            kind: CfgInstrKind::Unknown,
            rd: -1,
            rs1: -1,
            rs2: -1,
            imm: 0,
            width: 0,
            is_unsigned: false,
        }
    }

    /// Decode an instruction of `size` bytes (2 for compressed, otherwise 4).
    pub fn decode(raw: u32, size: u8) -> (r: Self)
        ensures
            r == instr_meaning(raw, size),
    {
        if size == 2 {
            Self::decode_compressed(raw as u16)
        } else {
            Self::decode_standard(raw)
        }
    }

    fn decode_standard(raw: u32) -> (r: Self)
        ensures
            r == standard_meaning(raw),
    {
        let opcode = raw & 0x7F;
        let rd = ((raw >> 7) & 0x1F) as i32;
        let rs1 = ((raw >> 15) & 0x1F) as i32;
        let rs2 = ((raw >> 20) & 0x1F) as i32;
        let funct3 = (raw >> 12) & 0x7;
        let funct7 = (raw >> 25) & 0x7F;
        proof {
            lemma2_to64();
            assert(opcode as int == raw % 0x80 && funct3 as int == (raw / 0x1000) % 8 && funct7
                as int == (raw / 0x200_0000) % 0x80) by (bit_vector)
                requires
                    opcode == raw & 0x7F,
                    funct3 == (raw >> 12) & 0x7,
                    funct7 == (raw >> 25) & 0x7F,
            ;
            assert(rd as int == (raw / 0x80) % 32 && rs1 as int == (raw / 0x8000) % 32 && rs2
                as int == (raw / 0x10_0000) % 32) by (bit_vector)
                requires
                    rd == ((raw >> 7) & 0x1F) as i32,
                    rs1 == ((raw >> 15) & 0x1F) as i32,
                    rs2 == ((raw >> 20) & 0x1F) as i32,
            ;
        }
        if opcode == 0x37 {
            let imm = decode_u_imm(raw);
            Self {
                kind: CfgInstrKind::Lui,
                rd,
                rs1: -1,
                rs2: -1,
                imm,
                width: 0,
                is_unsigned: false,
            }
        } else if opcode == 0x17 {
            let imm = decode_u_imm(raw);
            Self {
                kind: CfgInstrKind::Auipc,
                rd,
                rs1: -1,
                rs2: -1,
                imm,
                width: 0,
                is_unsigned: false,
            }
        } else if opcode == 0x6F {
            let imm = decode_j_imm(raw);
            Self {
                kind: CfgInstrKind::Jal,
                rd,
                rs1: -1,
                rs2: -1,
                imm,
                width: 0,
                is_unsigned: false,
            }
        } else if opcode == 0x67 {
            let imm = decode_i_imm(raw);
            Self {
                kind: CfgInstrKind::Jalr,
                rd,
                rs1,
                rs2: -1,
                imm,
                width: 0,
                is_unsigned: false,
            }
        } else if opcode == 0x63 {
            let imm = decode_b_imm(raw);
            Self {
                kind: CfgInstrKind::Branch,
                rd: -1,
                rs1,
                rs2,
                imm,
                width: 0,
                is_unsigned: false,
            }
        } else if opcode == 0x03 {
            let imm = decode_i_imm(raw);
            let width: u8 = if funct3 == 0 || funct3 == 4 {
                1
            } else if funct3 == 1 || funct3 == 5 {
                2
            } else if funct3 == 2 || funct3 == 6 {
                4
            } else if funct3 == 3 {
                8
            } else {
                0
            };
            let is_unsigned = funct3 == 4 || funct3 == 5 || funct3 == 6;
            Self { kind: CfgInstrKind::Load, rd, rs1, rs2: -1, imm, width, is_unsigned }
        } else if opcode == 0x23 {
            let imm = decode_s_imm(raw);
            let width: u8 = if funct3 == 0 {
                1
            } else if funct3 == 1 {
                2
            } else if funct3 == 2 {
                4
            } else if funct3 == 3 {
                8
            } else {
                0
            };
            Self {
                kind: CfgInstrKind::Store,
                rd: -1,
                rs1,
                rs2,
                imm,
                width,
                is_unsigned: false,
            }
        } else if opcode == 0x13 && funct3 == 0 {
            let imm = decode_i_imm(raw);
            Self {
                kind: CfgInstrKind::Addi,
                rd,
                rs1,
                rs2: -1,
                imm,
                width: 0,
                is_unsigned: false,
            }
        } else if opcode == 0x33 && funct3 == 0 && funct7 == 0 {
            Self {
                kind: CfgInstrKind::Add,
                rd,
                rs1,
                rs2,
                imm: 0,
                width: 0,
                is_unsigned: false,
            }
        } else {
            // SUB and every other instruction: no value tracking, but rd may be written.
            Self {
                kind: CfgInstrKind::Unknown,
                rd,
                rs1: -1,
                rs2: -1,
                imm: 0,
                width: 0,
                is_unsigned: false,
            }
        }
    }

    fn decode_compressed(raw: u16) -> (r: Self)
        ensures
            r == compressed_meaning(raw),
    {
        let quadrant = raw & 0x3;
        let funct3 = ((raw >> 13) & 0x7) as u32;
        proof {
            lemma2_to64();
            assert(quadrant as int == raw % 4 && funct3 as int == (raw / 0x2000) % 8) by (bit_vector)
                requires
                    quadrant == raw & 0x3,
                    funct3 == ((raw >> 13) & 0x7) as u32,
            ;
        }
        if quadrant == 0 {
            Self::decode_c_quadrant0(raw, funct3)
        } else if quadrant == 1 {
            Self::decode_c_quadrant1(raw, funct3)
        } else if quadrant == 2 {
            Self::decode_c_quadrant2(raw, funct3)
        } else {
            Self::unknown()
        }
    }

    fn decode_c_quadrant0(raw: u16, funct3: u32) -> (r: Self)
        requires
            funct3 as int == field(raw as int, 13, 3),
        ensures
            r == quadrant0_meaning(raw),
    {
        assert((raw >> 2) & 0x7 <= 7 && (raw >> 7) & 0x7 <= 7) by (bit_vector);
        let r_low = (((raw >> 2) & 0x7) + 8) as i32;
        let r_high = (((raw >> 7) & 0x7) + 8) as i32;
        proof {
            lemma2_to64();
            assert(r_low as int == (raw / 4) % 8 + 8 && r_high as int == (raw / 0x80) % 8 + 8)
                by (bit_vector)
                requires
                    r_low == (((raw >> 2) & 0x7) + 8) as i32,
                    r_high == (((raw >> 7) & 0x7) + 8) as i32,
            ;
        }
        if funct3 == 0 {
            // C.ADDI4SPN
            let imm = decode_addi4spn_imm(raw);
            Self {
                kind: CfgInstrKind::Addi,
                rd: r_low,
                rs1: 2,
                rs2: -1,
                imm,
                width: 0,
                is_unsigned: false,
            }
        } else if funct3 == 2 {
            // C.LW
            let imm = decode_cl_lw_offset(raw);
            Self {
                kind: CfgInstrKind::Load,
                rd: r_low,
                rs1: r_high,
                rs2: -1,
                imm,
                width: 4,
                is_unsigned: false,
            }
        } else if funct3 == 3 {
            // C.LD (RV64) or C.FLW (RV32)
            let imm = decode_cl_ld_offset(raw);
            Self {
                kind: CfgInstrKind::Load,
                rd: r_low,
                rs1: r_high,
                rs2: -1,
                imm,
                width: 8,
                is_unsigned: false,
            }
        } else if funct3 == 6 {
            // C.SW
            let imm = decode_cs_sw_offset(raw);
            Self {
                kind: CfgInstrKind::Store,
                rd: -1,
                rs1: r_high,
                rs2: r_low,
                imm,
                width: 4,
                is_unsigned: false,
            }
        } else if funct3 == 7 {
            // C.SD (RV64)
            let imm = decode_cs_sd_offset(raw);
            Self {
                kind: CfgInstrKind::Store,
                rd: -1,
                rs1: r_high,
                rs2: r_low,
                imm,
                width: 8,
                is_unsigned: false,
            }
        } else {
            Self::unknown()
        }
    }

    fn decode_c_quadrant1(raw: u16, funct3: u32) -> (r: Self)
        requires
            funct3 as int == field(raw as int, 13, 3),
        ensures
            r == quadrant1_meaning(raw),
    {
        let rd = ((raw >> 7) & 0x1F) as i32;
        assert((raw >> 7) & 0x7 <= 7) by (bit_vector);
        let r_high = (((raw >> 7) & 0x7) + 8) as i32;
        proof {
            lemma2_to64();
            assert(rd as int == (raw / 0x80) % 32 && r_high as int == (raw / 0x80) % 8 + 8 && funct3
                < 8) by (bit_vector)
                requires
                    rd == ((raw >> 7) & 0x1F) as i32,
                    r_high == (((raw >> 7) & 0x7) + 8) as i32,
                    funct3 as int == (raw / 0x2000) % 8,
            ;
        }
        if funct3 == 0 {
            // C.ADDI / C.NOP
            let imm = decode_ci_imm(raw);
            Self {
                kind: CfgInstrKind::Addi,
                rd,
                rs1: rd,
                rs2: -1,
                imm,
                width: 0,
                is_unsigned: false,
            }
        } else if funct3 == 1 {
            // C.JAL (RV32) or C.ADDIW (RV64); treated as a call
            let imm = decode_cj_imm(raw);
            Self {
                kind: CfgInstrKind::Jal,
                rd: 1,
                rs1: -1,
                rs2: -1,
                imm,
                width: 0,
                is_unsigned: false,
            }
        } else if funct3 == 2 {
            // C.LI
            let imm = decode_ci_imm(raw);
            Self {
                kind: CfgInstrKind::Addi,
                rd,
                rs1: 0,
                rs2: -1,
                imm,
                width: 0,
                is_unsigned: false,
            }
        } else if funct3 == 3 {
            if rd == 2 {
                // C.ADDI16SP
                let imm = decode_ci16sp_imm(raw);
                Self {
                    kind: CfgInstrKind::Addi,
                    rd,
                    rs1: rd,
                    rs2: -1,
                    imm,
                    width: 0,
                    is_unsigned: false,
                }
            } else {
                // C.LUI
                let imm = decode_ci_lui_imm(raw);
                Self {
                    kind: CfgInstrKind::Lui,
                    rd,
                    rs1: -1,
                    rs2: -1,
                    imm,
                    width: 0,
                    is_unsigned: false,
                }
            }
        } else if funct3 == 4 {
            // Register-register ALU operations
            Self {
                kind: CfgInstrKind::Unknown,
                rd: r_high,
                rs1: -1,
                rs2: -1,
                imm: 0,
                width: 0,
                is_unsigned: false,
            }
        } else if funct3 == 5 {
            // C.J
            let imm = decode_cj_imm(raw);
            Self {
                kind: CfgInstrKind::Jal,
                rd: 0,
                rs1: -1,
                rs2: -1,
                imm,
                width: 0,
                is_unsigned: false,
            }
        } else {
            // C.BEQZ / C.BNEZ
            let imm = decode_cb_imm(raw);
            Self {
                kind: CfgInstrKind::Branch,
                rd: -1,
                rs1: r_high,
                rs2: if funct3 == 6 { 0 } else { -1 },
                imm,
                width: 0,
                is_unsigned: false,
            }
        }
    }

    fn decode_c_quadrant2(raw: u16, funct3: u32) -> (r: Self)
        requires
            funct3 as int == field(raw as int, 13, 3),
        ensures
            r == quadrant2_meaning(raw),
    {
        let rd = ((raw >> 7) & 0x1F) as i32;
        let rs2 = ((raw >> 2) & 0x1F) as i32;
        let bit12 = (raw >> 12) & 0x1;
        proof {
            lemma2_to64();
            assert(rd as int == (raw / 0x80) % 32 && rs2 as int == (raw / 4) % 32 && bit12 as int
                == (raw / 0x1000) % 2) by (bit_vector)
                requires
                    rd == ((raw >> 7) & 0x1F) as i32,
                    rs2 == ((raw >> 2) & 0x1F) as i32,
                    bit12 == (raw >> 12) & 0x1,
            ;
        }
        if funct3 == 0 {
            // C.SLLI
            Self {
                kind: CfgInstrKind::Unknown,
                rd,
                rs1: rd,
                rs2: -1,
                imm: 0,
                width: 0,
                is_unsigned: false,
            }
        } else if funct3 == 2 {
            // C.LWSP
            if rd == 0 {
                return Self::unknown();
            }
            let imm = decode_ci_lwsp_offset(raw);
            Self {
                kind: CfgInstrKind::Load,
                rd,
                rs1: 2,
                rs2: -1,
                imm,
                width: 4,
                is_unsigned: false,
            }
        } else if funct3 == 3 {
            // C.LDSP (RV64)
            if rd == 0 {
                return Self::unknown();
            }
            let imm = decode_ci_ldsp_offset(raw);
            Self {
                kind: CfgInstrKind::Load,
                rd,
                rs1: 2,
                rs2: -1,
                imm,
                width: 8,
                is_unsigned: false,
            }
        } else if funct3 == 4 {
            if bit12 == 0 && rs2 == 0 {
                // C.JR
                Self {
                    kind: CfgInstrKind::Jalr,
                    rd: 0,
                    rs1: rd,
                    rs2: -1,
                    imm: 0,
                    width: 0,
                    is_unsigned: false,
                }
            } else if bit12 == 0 {
                // C.MV
                Self {
                    kind: CfgInstrKind::Move,
                    rd,
                    rs1: rs2,
                    rs2: -1,
                    imm: 0,
                    width: 0,
                    is_unsigned: false,
                }
            } else if rs2 == 0 {
                // C.JALR
                Self {
                    kind: CfgInstrKind::Jalr,
                    rd: 1,
                    rs1: rd,
                    rs2: -1,
                    imm: 0,
                    width: 0,
                    is_unsigned: false,
                }
            } else {
                // C.ADD
                Self {
                    kind: CfgInstrKind::Add,
                    rd,
                    rs1: rd,
                    rs2,
                    imm: 0,
                    width: 0,
                    is_unsigned: false,
                }
            }
        } else if funct3 == 6 {
            // C.SWSP
            let imm = decode_css_swsp_offset(raw);
            Self {
                kind: CfgInstrKind::Store,
                rd: -1,
                rs1: 2,
                rs2,
                imm,
                width: 4,
                is_unsigned: false,
            }
        } else if funct3 == 7 {
            // C.SDSP (RV64)
            let imm = decode_css_sdsp_offset(raw);
            Self {
                kind: CfgInstrKind::Store,
                rd: -1,
                rs1: 2,
                rs2,
                imm,
                width: 8,
                is_unsigned: false,
            }
        } else {
            Self::unknown()
        }
    }

    /// Whether this is a jump or a branch.
    pub fn is_control_flow(&self) -> (r: bool)
        ensures
            r == (self.kind == CfgInstrKind::Jal || self.kind == CfgInstrKind::Jalr || self.kind
                == CfgInstrKind::Branch),
    {
        match self.kind {
            CfgInstrKind::Jal | CfgInstrKind::Jalr | CfgInstrKind::Branch => true,
            _ => false,
        }
    }

    /// Whether this is a direct call (JAL that links).
    pub fn is_static_call(&self) -> (r: bool)
        ensures
            r == (self.kind == CfgInstrKind::Jal && self.rd != 0),
    {
        self.kind == CfgInstrKind::Jal && self.rd != 0
    }

    /// Whether this is a call of any kind (JAL or JALR that links).
    pub fn is_call(&self) -> (r: bool)
        ensures
            r == ((self.kind == CfgInstrKind::Jal || self.kind == CfgInstrKind::Jalr) && self.rd
                != 0),
    {
        match self.kind {
            CfgInstrKind::Jal => self.rd != 0,
            CfgInstrKind::Jalr => self.rd != 0,
            _ => false,
        }
    }

    /// Whether this is a return (JALR through ra without linking).
    pub fn is_return(&self) -> (r: bool)
        ensures
            r == (self.kind == CfgInstrKind::Jalr && self.rd == 0 && self.rs1 == 1),
    {
        self.kind == CfgInstrKind::Jalr && self.rd == 0 && self.rs1 == 1
    }

    /// Whether this is an indirect jump (JALR without linking through a register other than ra).
    pub fn is_indirect_jump(&self) -> (r: bool)
        ensures
            r == (self.kind == CfgInstrKind::Jalr && self.rd == 0 && self.rs1 != 1),
    {
        self.kind == CfgInstrKind::Jalr && self.rd == 0 && self.rs1 != 1
    }

    /// Zero- or sign-extend the low `width` bytes of a loaded value to 64 bits.
    pub fn extend_loaded_value(value: u64, width: u8, is_unsigned: bool) -> (r: u64)
        ensures
            r as int == extended_value(value, width, is_unsigned),
    {
        proof {
            lemma2_to64();
        }
        if width == 1 {
            let masked = value & 0xFF;
            assert(masked as int == value % 0x100 && ((masked & 0x80) == 0 ==> masked < 0x80) && (
            (masked & 0x80) != 0 ==> (masked | !0xFFu64) as int == masked + 0x1_0000_0000_0000_0000
                - 0x100 && masked >= 0x80)) by (bit_vector)
                requires
                    masked == value & 0xFF,
            ;
            if is_unsigned || (masked & 0x80) == 0 {
                masked
            } else {
                masked | !0xFF
            }
        } else if width == 2 {
            let masked = value & 0xFFFF;
            assert(masked as int == value % 0x1_0000 && ((masked & 0x8000) == 0 ==> masked < 0x8000) && (
            (masked & 0x8000) != 0 ==> (masked | !0xFFFFu64) as int == masked + 0x1_0000_0000_0000_0000
                - 0x1_0000 && masked >= 0x8000)) by (bit_vector)
                requires
                    masked == value & 0xFFFF,
            ;
            if is_unsigned || (masked & 0x8000) == 0 {
                masked
            } else {
                masked | !0xFFFF
            }
        } else if width == 4 {
            let masked = value & 0xFFFF_FFFF;
            assert(masked as int == value % 0x1_0000_0000 && ((masked & 0x8000_0000) == 0 ==> masked < 0x8000_0000) && (
            (masked & 0x8000_0000) != 0 ==> (masked | !0xFFFF_FFFFu64) as int == masked + 0x1_0000_0000_0000_0000
                - 0x1_0000_0000 && masked >= 0x8000_0000)) by (bit_vector)
                requires
                    masked == value & 0xFFFF_FFFF,
            ;
            if is_unsigned || (masked & 0x8000_0000) == 0 {
                masked
            } else {
                masked | !0xFFFF_FFFF
            }
        } else {
            value
        }
    }
}

// ---------------------------------------------------------------------------
// Immediate encodings of the RISC-V base and compressed formats
// ---------------------------------------------------------------------------

/// I-type immediate: imm[11:0] = inst[31:20].
pub open spec fn i_imm(raw: u32) -> int {
    sign_extend(field(raw as int, 20, 12), 12)
}

/// S-type immediate: imm[11:5] = inst[31:25], imm[4:0] = inst[11:7].
pub open spec fn s_imm(raw: u32) -> int {
    sign_extend(field(raw as int, 25, 7) * 32 + field(raw as int, 7, 5), 12)
}

/// B-type immediate: imm[12|10:5] = inst[31|30:25], imm[4:1|11] = inst[11:8|7].
pub open spec fn b_imm(raw: u32) -> int {
    sign_extend(
        field(raw as int, 31, 1) * 0x1000 + field(raw as int, 7, 1) * 0x800
            + field(raw as int, 25, 6) * 0x20 + field(raw as int, 8, 4) * 2,
        13,
    )
}

/// J-type immediate: imm[20|10:1|11|19:12] = inst[31|30:21|20|19:12].
pub open spec fn j_imm(raw: u32) -> int {
    sign_extend(
        field(raw as int, 31, 1) * 0x10_0000 + field(raw as int, 12, 8) * 0x1000
            + field(raw as int, 20, 1) * 0x800 + field(raw as int, 21, 10) * 2,
        21,
    )
}

/// U-type immediate: inst[31:12] followed by twelve zero bits, as a signed 32-bit value.
pub open spec fn u_imm(raw: u32) -> int {
    sign_extend(field(raw as int, 12, 20) * 0x1000, 32)
}

/// CI-format immediate (C.ADDI, C.LI): imm[5] = inst[12], imm[4:0] = inst[6:2].
pub open spec fn ci_imm(raw: u16) -> int {
    sign_extend(field(raw as int, 12, 1) * 32 + field(raw as int, 2, 5), 6)
}

/// C.LUI immediate: imm[17] = inst[12], imm[16:12] = inst[6:2].
pub open spec fn ci_lui_imm(raw: u16) -> int {
    sign_extend(field(raw as int, 12, 1) * 0x2_0000 + field(raw as int, 2, 5) * 0x1000, 18)
}

/// C.ADDI16SP immediate: imm[9] = inst[12], imm[4|6|8:7|5] = inst[6|5|4:3|2].
pub open spec fn ci16sp_imm(raw: u16) -> int {
    sign_extend(
        field(raw as int, 12, 1) * 512 + field(raw as int, 3, 2) * 128 + field(raw as int, 5, 1)
            * 64 + field(raw as int, 2, 1) * 32 + field(raw as int, 6, 1) * 16,
        10,
    )
}

/// C.LWSP offset: offset[5] = inst[12], offset[4:2|7:6] = inst[6:4|3:2].
pub open spec fn ci_lwsp_offset(raw: u16) -> int {
    field(raw as int, 2, 2) * 64 + field(raw as int, 12, 1) * 32 + field(raw as int, 4, 3) * 4
}

/// C.LDSP offset: offset[5] = inst[12], offset[4:3|8:6] = inst[6:5|4:2].
pub open spec fn ci_ldsp_offset(raw: u16) -> int {
    field(raw as int, 2, 3) * 64 + field(raw as int, 12, 1) * 32 + field(raw as int, 5, 2) * 8
}

/// CJ-format jump offset: offset[11|4|9:8|10|6|7|3:1|5] = inst[12:2].
pub open spec fn cj_imm(raw: u16) -> int {
    sign_extend(
        field(raw as int, 12, 1) * 2048 + field(raw as int, 8, 1) * 1024 + field(raw as int, 9, 2)
            * 256 + field(raw as int, 6, 1) * 128 + field(raw as int, 7, 1) * 64 + field(
            raw as int,
            2,
            1,
        ) * 32 + field(raw as int, 11, 1) * 16 + field(raw as int, 3, 3) * 2,
        12,
    )
}

/// CB-format branch offset: offset[8|4:3] = inst[12:10], offset[7:6|2:1|5] = inst[6:2].
pub open spec fn cb_imm(raw: u16) -> int {
    sign_extend(
        field(raw as int, 12, 1) * 256 + field(raw as int, 5, 2) * 64 + field(raw as int, 2, 1)
            * 32 + field(raw as int, 10, 2) * 8 + field(raw as int, 3, 2) * 2,
        9,
    )
}

/// C.ADDI4SPN immediate: nzuimm[5:4|9:6|2|3] = inst[12:5].
pub open spec fn addi4spn_imm(raw: u16) -> int {
    field(raw as int, 7, 4) * 64 + field(raw as int, 11, 2) * 16 + field(raw as int, 5, 1) * 8
        + field(raw as int, 6, 1) * 4
}

/// C.LW / C.SW offset: offset[5:3] = inst[12:10], offset[2|6] = inst[6|5].
pub open spec fn cl_lw_offset(raw: u16) -> int {
    field(raw as int, 5, 1) * 64 + field(raw as int, 10, 3) * 8 + field(raw as int, 6, 1) * 4
}

/// C.LD / C.SD offset: offset[5:3] = inst[12:10], offset[7:6] = inst[6:5].
pub open spec fn cl_ld_offset(raw: u16) -> int {
    field(raw as int, 5, 2) * 64 + field(raw as int, 10, 3) * 8
}

/// C.SWSP offset: offset[5:2|7:6] = inst[12:9|8:7].
pub open spec fn css_swsp_offset(raw: u16) -> int {
    field(raw as int, 7, 2) * 64 + field(raw as int, 9, 4) * 4
}

/// C.SDSP offset: offset[5:3|8:6] = inst[12:10|9:7].
pub open spec fn css_sdsp_offset(raw: u16) -> int {
    field(raw as int, 7, 3) * 64 + field(raw as int, 10, 3) * 8
}

fn decode_i_imm(instr: u32) -> (r: i32)
    ensures
        r as int == i_imm(instr),
{
    let r = (instr as i32) >> 20;
    proof {
        lemma2_to64();
        assert(r as int == (if (instr / 0x10_0000) % 0x1000 >= 0x800 {
            (instr / 0x10_0000) % 0x1000 - 0x1000
        } else {
            ((instr / 0x10_0000) % 0x1000) as int
        })) by (bit_vector)
            requires
                r == (instr as i32) >> 20,
        ;
    }
    r
}

fn decode_s_imm(instr: u32) -> (r: i32)
    ensures
        r as int == s_imm(instr),
{
    let imm_11_5 = (instr >> 25) & 0x7F;
    let imm_4_0 = (instr >> 7) & 0x1F;
    let imm = (imm_11_5 << 5) | imm_4_0;
    let r = ((imm as i32) << 20) >> 20;
    proof {
        lemma2_to64();
        let u: int = ((instr / 0x200_0000) % 0x80) * 32 + (instr / 0x80) % 0x20;
        assert(imm as int == ((instr / 0x200_0000) % 0x80) * 32 + (instr / 0x80) % 0x20)
            by (bit_vector)
            requires
                imm_11_5 == (instr >> 25) & 0x7F,
                imm_4_0 == (instr >> 7) & 0x1F,
                imm == (imm_11_5 << 5) | imm_4_0,
        ;
        assert(r as int == (if imm >= 0x800 { imm - 0x1000 } else { imm as int })) by (bit_vector)
            requires
                imm < 0x1000,
                r == ((imm as i32) << 20) >> 20,
        ;
    }
    r
}

fn decode_b_imm(instr: u32) -> (r: i32)
    ensures
        r as int == b_imm(instr),
{
    let imm_12 = (instr >> 31) & 0x1;
    let imm_11 = (instr >> 7) & 0x1;
    let imm_10_5 = (instr >> 25) & 0x3F;
    let imm_4_1 = (instr >> 8) & 0xF;
    let imm = (imm_12 << 12) | (imm_11 << 11) | (imm_10_5 << 5) | (imm_4_1 << 1);
    let r = ((imm as i32) << 19) >> 19;
    proof {
        lemma2_to64();
        assert(imm as int == ((instr / 0x8000_0000) % 2) * 0x1000 + ((instr / 0x80) % 2) * 0x800
            + ((instr / 0x200_0000) % 0x40) * 0x20 + ((instr / 0x100) % 0x10) * 2) by (bit_vector)
            requires
                imm_12 == (instr >> 31) & 0x1,
                imm_11 == (instr >> 7) & 0x1,
                imm_10_5 == (instr >> 25) & 0x3F,
                imm_4_1 == (instr >> 8) & 0xF,
                imm == (imm_12 << 12) | (imm_11 << 11) | (imm_10_5 << 5) | (imm_4_1 << 1),
        ;
        assert(r as int == (if imm >= 0x1000 { imm - 0x2000 } else { imm as int })) by (bit_vector)
            requires
                imm < 0x2000,
                r == ((imm as i32) << 19) >> 19,
        ;
    }
    r
}

fn decode_j_imm(instr: u32) -> (r: i32)
    ensures
        r as int == j_imm(instr),
{
    let imm_20 = (instr >> 31) & 0x1;
    let imm_19_12 = (instr >> 12) & 0xFF;
    let imm_11 = (instr >> 20) & 0x1;
    let imm_10_1 = (instr >> 21) & 0x3FF;
    let imm = (imm_20 << 20) | (imm_19_12 << 12) | (imm_11 << 11) | (imm_10_1 << 1);
    let r = ((imm as i32) << 11) >> 11;
    proof {
        lemma2_to64();
        assert(imm as int == ((instr / 0x8000_0000) % 2) * 0x10_0000 + ((instr / 0x1000) % 0x100)
            * 0x1000 + ((instr / 0x10_0000) % 2) * 0x800 + ((instr / 0x20_0000) % 0x400) * 2)
            by (bit_vector)
            requires
                imm_20 == (instr >> 31) & 0x1,
                imm_19_12 == (instr >> 12) & 0xFF,
                imm_11 == (instr >> 20) & 0x1,
                imm_10_1 == (instr >> 21) & 0x3FF,
                imm == (imm_20 << 20) | (imm_19_12 << 12) | (imm_11 << 11) | (imm_10_1 << 1),
        ;
        assert(r as int == (if imm >= 0x10_0000 { imm - 0x20_0000 } else { imm as int }))
            by (bit_vector)
            requires
                imm < 0x20_0000,
                r == ((imm as i32) << 11) >> 11,
        ;
    }
    r
}

fn decode_u_imm(instr: u32) -> (r: i32)
    ensures
        r as int == u_imm(instr),
{
    let r = (instr & 0xFFFF_F000) as i32;
    proof {
        lemma2_to64();
        let u: int = ((instr / 0x1000) % 0x10_0000) * 0x1000;
        assert(r as int == (if ((instr / 0x1000) % 0x10_0000) * 0x1000 >= 0x8000_0000 {
            ((instr / 0x1000) % 0x10_0000) * 0x1000 - 0x1_0000_0000
        } else {
            ((instr / 0x1000) % 0x10_0000) * 0x1000
        })) by (bit_vector)
            requires
                r == (instr & 0xFFFF_F000) as i32,
        ;
    }
    r
}

fn decode_ci_imm(raw: u16) -> (r: i32)
    ensures
        r as int == ci_imm(raw),
{
    let imm_5 = ((raw >> 12) & 0x1) as u32;
    let imm_4_0 = ((raw >> 2) & 0x1F) as u32;
    let imm = (imm_5 << 5) | imm_4_0;
    let r = ((imm as i32) << 26) >> 26;
    proof {
        lemma2_to64();
        assert(imm as int == ((raw / 0x1000) % 2) * 32 + (raw / 4) % 32) by (bit_vector)
            requires
                imm_5 == ((raw >> 12) & 0x1) as u32,
                imm_4_0 == ((raw >> 2) & 0x1F) as u32,
                imm == (imm_5 << 5) | imm_4_0,
        ;
        assert(r as int == (if imm >= 32 { imm - 64 } else { imm as int })) by (bit_vector)
            requires
                imm < 64,
                r == ((imm as i32) << 26) >> 26,
        ;
    }
    r
}

fn decode_ci_lui_imm(raw: u16) -> (r: i32)
    ensures
        r as int == ci_lui_imm(raw),
{
    let imm_17 = ((raw >> 12) & 0x1) as u32;
    let imm_16_12 = ((raw >> 2) & 0x1F) as u32;
    let imm = (imm_17 << 17) | (imm_16_12 << 12);
    let r = ((imm as i32) << 14) >> 14;
    proof {
        lemma2_to64();
        assert(imm as int == ((raw / 0x1000) % 2) * 0x2_0000 + ((raw / 4) % 32) * 0x1000)
            by (bit_vector)
            requires
                imm_17 == ((raw >> 12) & 0x1) as u32,
                imm_16_12 == ((raw >> 2) & 0x1F) as u32,
                imm == (imm_17 << 17) | (imm_16_12 << 12),
        ;
        assert(r as int == (if imm >= 0x2_0000 { imm - 0x4_0000 } else { imm as int }))
            by (bit_vector)
            requires
                imm < 0x4_0000,
                r == ((imm as i32) << 14) >> 14,
        ;
    }
    r
}

fn decode_ci16sp_imm(raw: u16) -> (r: i32)
    ensures
        r as int == ci16sp_imm(raw),
{
    let imm_9 = ((raw >> 12) & 0x1) as u32;
    let imm_4 = ((raw >> 6) & 0x1) as u32;
    let imm_6 = ((raw >> 5) & 0x1) as u32;
    let imm_8_7 = ((raw >> 3) & 0x3) as u32;
    let imm_5 = ((raw >> 2) & 0x1) as u32;
    let imm = (imm_9 << 9) | (imm_8_7 << 7) | (imm_6 << 6) | (imm_5 << 5) | (imm_4 << 4);
    let r = ((imm as i32) << 22) >> 22;
    proof {
        lemma2_to64();
        assert(imm as int == ((raw / 0x1000) % 2) * 512 + ((raw / 8) % 4) * 128 + ((raw / 32) % 2)
            * 64 + ((raw / 4) % 2) * 32 + ((raw / 64) % 2) * 16) by (bit_vector)
            requires
                imm_9 == ((raw >> 12) & 0x1) as u32,
                imm_4 == ((raw >> 6) & 0x1) as u32,
                imm_6 == ((raw >> 5) & 0x1) as u32,
                imm_8_7 == ((raw >> 3) & 0x3) as u32,
                imm_5 == ((raw >> 2) & 0x1) as u32,
                imm == (imm_9 << 9) | (imm_8_7 << 7) | (imm_6 << 6) | (imm_5 << 5) | (imm_4 << 4),
        ;
        assert(r as int == (if imm >= 512 { imm - 1024 } else { imm as int })) by (bit_vector)
            requires
                imm < 1024,
                r == ((imm as i32) << 22) >> 22,
        ;
    }
    r
}

fn decode_ci_lwsp_offset(raw: u16) -> (r: i32)
    ensures
        r as int == ci_lwsp_offset(raw),
{
    let imm_5 = ((raw >> 12) & 0x1) as u32;
    let imm_4_2 = ((raw >> 4) & 0x7) as u32;
    let imm_7_6 = ((raw >> 2) & 0x3) as u32;
    let v = (imm_7_6 << 6) | (imm_5 << 5) | (imm_4_2 << 2);
    proof {
        lemma2_to64();
        assert(v as int == ((raw / 4) % 4) * 64 + ((raw / 0x1000) % 2) * 32 + ((raw / 16) % 8) * 4)
            by (bit_vector)
            requires
                imm_5 == ((raw >> 12) & 0x1) as u32,
                imm_4_2 == ((raw >> 4) & 0x7) as u32,
                imm_7_6 == ((raw >> 2) & 0x3) as u32,
                v == (imm_7_6 << 6) | (imm_5 << 5) | (imm_4_2 << 2),
        ;
    }
    v as i32
}

fn decode_ci_ldsp_offset(raw: u16) -> (r: i32)
    ensures
        r as int == ci_ldsp_offset(raw),
{
    let imm_5 = ((raw >> 12) & 0x1) as u32;
    let imm_4_3 = ((raw >> 5) & 0x3) as u32;
    let imm_8_6 = ((raw >> 2) & 0x7) as u32;
    let v = (imm_8_6 << 6) | (imm_5 << 5) | (imm_4_3 << 3);
    proof {
        lemma2_to64();
        assert(v as int == ((raw / 4) % 8) * 64 + ((raw / 0x1000) % 2) * 32 + ((raw / 32) % 4) * 8)
            by (bit_vector)
            requires
                imm_5 == ((raw >> 12) & 0x1) as u32,
                imm_4_3 == ((raw >> 5) & 0x3) as u32,
                imm_8_6 == ((raw >> 2) & 0x7) as u32,
                v == (imm_8_6 << 6) | (imm_5 << 5) | (imm_4_3 << 3),
        ;
    }
    v as i32
}

fn decode_cj_imm(raw: u16) -> (r: i32)
    ensures
        r as int == cj_imm(raw),
{
    let bits = raw as u32;
    let imm_11 = (bits >> 12) & 0x1;
    let imm_4 = (bits >> 11) & 0x1;
    let imm_9_8 = (bits >> 9) & 0x3;
    let imm_10 = (bits >> 8) & 0x1;
    let imm_6 = (bits >> 7) & 0x1;
    let imm_7 = (bits >> 6) & 0x1;
    let imm_3_1 = (bits >> 3) & 0x7;
    let imm_5 = (bits >> 2) & 0x1;
    let imm = (imm_11 << 11) | (imm_10 << 10) | (imm_9_8 << 8) | (imm_7 << 7) | (imm_6 << 6) | (
    imm_5 << 5) | (imm_4 << 4) | (imm_3_1 << 1);
    let r = ((imm as i32) << 20) >> 20;
    proof {
        lemma2_to64();
        assert(imm as int == ((bits / 0x1000) % 2) * 2048 + ((bits / 0x100) % 2) * 1024 + ((bits
            / 0x200) % 4) * 256 + ((bits / 0x40) % 2) * 128 + ((bits / 0x80) % 2) * 64 + ((bits / 4)
            % 2) * 32 + ((bits / 0x800) % 2) * 16 + ((bits / 8) % 8) * 2) by (bit_vector)
            requires
                imm_11 == (bits >> 12) & 0x1,
                imm_4 == (bits >> 11) & 0x1,
                imm_9_8 == (bits >> 9) & 0x3,
                imm_10 == (bits >> 8) & 0x1,
                imm_6 == (bits >> 7) & 0x1,
                imm_7 == (bits >> 6) & 0x1,
                imm_3_1 == (bits >> 3) & 0x7,
                imm_5 == (bits >> 2) & 0x1,
                imm == (imm_11 << 11) | (imm_10 << 10) | (imm_9_8 << 8) | (imm_7 << 7) | (imm_6
                    << 6) | (imm_5 << 5) | (imm_4 << 4) | (imm_3_1 << 1),
        ;
        assert(r as int == (if imm >= 2048 { imm - 4096 } else { imm as int })) by (bit_vector)
            requires
                imm < 4096,
                r == ((imm as i32) << 20) >> 20,
        ;
    }
    r
}

fn decode_cb_imm(raw: u16) -> (r: i32)
    ensures
        r as int == cb_imm(raw),
{
    let bits = raw as u32;
    let imm_8 = (bits >> 12) & 0x1;
    let imm_4_3 = (bits >> 10) & 0x3;
    let imm_7_6 = (bits >> 5) & 0x3;
    let imm_2_1 = (bits >> 3) & 0x3;
    let imm_5 = (bits >> 2) & 0x1;
    let imm = (imm_8 << 8) | (imm_7_6 << 6) | (imm_5 << 5) | (imm_4_3 << 3) | (imm_2_1 << 1);
    let r = ((imm as i32) << 23) >> 23;
    proof {
        lemma2_to64();
        assert(imm as int == ((bits / 0x1000) % 2) * 256 + ((bits / 32) % 4) * 64 + ((bits / 4) % 2)
            * 32 + ((bits / 0x400) % 4) * 8 + ((bits / 8) % 4) * 2) by (bit_vector)
            requires
                imm_8 == (bits >> 12) & 0x1,
                imm_4_3 == (bits >> 10) & 0x3,
                imm_7_6 == (bits >> 5) & 0x3,
                imm_2_1 == (bits >> 3) & 0x3,
                imm_5 == (bits >> 2) & 0x1,
                imm == (imm_8 << 8) | (imm_7_6 << 6) | (imm_5 << 5) | (imm_4_3 << 3) | (imm_2_1
                    << 1),
        ;
        assert(r as int == (if imm >= 256 { imm - 512 } else { imm as int })) by (bit_vector)
            requires
                imm < 512,
                r == ((imm as i32) << 23) >> 23,
        ;
    }
    r
}

fn decode_addi4spn_imm(raw: u16) -> (r: i32)
    ensures
        r as int == addi4spn_imm(raw),
{
    let bits = raw as u32;
    let imm_5_4 = (bits >> 11) & 0x3;
    let imm_9_6 = (bits >> 7) & 0xF;
    let imm_2 = (bits >> 6) & 0x1;
    let imm_3 = (bits >> 5) & 0x1;
    let v = (imm_9_6 << 6) | (imm_5_4 << 4) | (imm_3 << 3) | (imm_2 << 2);
    proof {
        lemma2_to64();
        assert(v as int == ((bits / 0x80) % 16) * 64 + ((bits / 0x800) % 4) * 16 + ((bits / 32) % 2)
            * 8 + ((bits / 64) % 2) * 4) by (bit_vector)
            requires
                imm_5_4 == (bits >> 11) & 0x3,
                imm_9_6 == (bits >> 7) & 0xF,
                imm_2 == (bits >> 6) & 0x1,
                imm_3 == (bits >> 5) & 0x1,
                v == (imm_9_6 << 6) | (imm_5_4 << 4) | (imm_3 << 3) | (imm_2 << 2),
        ;
    }
    v as i32
}

fn decode_cl_lw_offset(raw: u16) -> (r: i32)
    ensures
        r as int == cl_lw_offset(raw),
{
    let bits = raw as u32;
    let imm_5_3 = (bits >> 10) & 0x7;
    let imm_2 = (bits >> 6) & 0x1;
    let imm_6 = (bits >> 5) & 0x1;
    let v = (imm_6 << 6) | (imm_5_3 << 3) | (imm_2 << 2);
    proof {
        lemma2_to64();
        assert(v as int == ((bits / 32) % 2) * 64 + ((bits / 0x400) % 8) * 8 + ((bits / 64) % 2) * 4)
            by (bit_vector)
            requires
                imm_5_3 == (bits >> 10) & 0x7,
                imm_2 == (bits >> 6) & 0x1,
                imm_6 == (bits >> 5) & 0x1,
                v == (imm_6 << 6) | (imm_5_3 << 3) | (imm_2 << 2),
        ;
    }
    v as i32
}

fn decode_cl_ld_offset(raw: u16) -> (r: i32)
    ensures
        r as int == cl_ld_offset(raw),
{
    let bits = raw as u32;
    let imm_5_3 = (bits >> 10) & 0x7;
    let imm_7_6 = (bits >> 5) & 0x3;
    let v = (imm_7_6 << 6) | (imm_5_3 << 3);
    proof {
        lemma2_to64();
        assert(v as int == ((bits / 32) % 4) * 64 + ((bits / 0x400) % 8) * 8) by (bit_vector)
            requires
                imm_5_3 == (bits >> 10) & 0x7,
                imm_7_6 == (bits >> 5) & 0x3,
                v == (imm_7_6 << 6) | (imm_5_3 << 3),
        ;
    }
    v as i32
}

fn decode_cs_sw_offset(raw: u16) -> (r: i32)
    ensures
        r as int == cl_lw_offset(raw),
{
    decode_cl_lw_offset(raw)
}

fn decode_cs_sd_offset(raw: u16) -> (r: i32)
    ensures
        r as int == cl_ld_offset(raw),
{
    decode_cl_ld_offset(raw)
}

fn decode_css_swsp_offset(raw: u16) -> (r: i32)
    ensures
        r as int == css_swsp_offset(raw),
{
    let bits = raw as u32;
    let imm_5_2 = (bits >> 9) & 0xF;
    let imm_7_6 = (bits >> 7) & 0x3;
    let v = (imm_7_6 << 6) | (imm_5_2 << 2);
    proof {
        lemma2_to64();
        assert(v as int == ((bits / 0x80) % 4) * 64 + ((bits / 0x200) % 16) * 4) by (bit_vector)
            requires
                imm_5_2 == (bits >> 9) & 0xF,
                imm_7_6 == (bits >> 7) & 0x3,
                v == (imm_7_6 << 6) | (imm_5_2 << 2),
        ;
    }
    v as i32
}

fn decode_css_sdsp_offset(raw: u16) -> (r: i32)
    ensures
        r as int == css_sdsp_offset(raw),
{
    let bits = raw as u32;
    let imm_5_3 = (bits >> 10) & 0x7;
    let imm_8_6 = (bits >> 7) & 0x7;
    let v = (imm_8_6 << 6) | (imm_5_3 << 3);
    proof {
        lemma2_to64();
        assert(v as int == ((bits / 0x80) % 8) * 64 + ((bits / 0x400) % 8) * 8) by (bit_vector)
            requires
                imm_5_3 == (bits >> 10) & 0x7,
                imm_8_6 == (bits >> 7) & 0x7,
                v == (imm_8_6 << 6) | (imm_5_3 << 3),
        ;
    }
    v as i32
}

/// The fields of a 32-bit instruction word, by division.
proof fn lemma_standard_fields(raw: u32)
    ensures
        field(raw as int, 0, 7) == raw % 0x80,
        field(raw as int, 7, 5) == (raw / 0x80) % 32,
        field(raw as int, 15, 5) == (raw / 0x8000) % 32,
        field(raw as int, 12, 3) == (raw / 0x1000) % 8,
        field(raw as int, 20, 12) == raw / 0x10_0000,
        field(raw as int, 20, 5) == (raw / 0x10_0000) % 32,
        field(raw as int, 25, 7) == raw / 0x200_0000,
        u_imm(raw) == ((raw / 0x1000) * 0x1000) as int - if raw / 0x1000 >= 0x8_0000 {
            0x1_0000_0000int
        } else {
            0int
        },
        i_imm(raw) == (raw / 0x10_0000) as int - if raw / 0x10_0000 >= 0x800 {
            0x1000int
        } else {
            0int
        },
{
    lemma2_to64();
    assert(raw / 0x10_0000 < 0x1000);
    assert(raw / 0x200_0000 < 0x80);
    assert(raw / 0x1000 < 0x10_0000);
}

/// A standard LOAD word (opcode 0x03) whose funct3 (bits 12..15) names a
/// load decodes as a load into rd (bits 7..12) from rs1 (bits 15..20) plus
/// the 12-bit signed immediate of bits 20..32, of 2^(funct3 mod 4) bytes,
/// zero-extended exactly when bit 2 of funct3 is set (LBU, LHU, LWU) and
/// sign-extended otherwise (LB, LH, LW, LD).
pub proof fn law_load_decoding(raw: u32)
    requires
        raw % 0x80 == 0x03,
        (raw / 0x1000) % 8 != 7,
    ensures
        instr_meaning(raw, 4).kind == CfgInstrKind::Load,
        instr_meaning(raw, 4).rd == (raw / 0x80) % 32,
        instr_meaning(raw, 4).rs1 == (raw / 0x8000) % 32,
        instr_meaning(raw, 4).imm == (raw / 0x10_0000) as int - if raw / 0x10_0000 >= 0x800 {
            0x1000int
        } else {
            0int
        },
        instr_meaning(raw, 4).width == if (raw / 0x1000) % 4 == 0 {
            1int
        } else if (raw / 0x1000) % 4 == 1 {
            2int
        } else if (raw / 0x1000) % 4 == 2 {
            4int
        } else {
            8int
        },
        instr_meaning(raw, 4).is_unsigned == ((raw / 0x1000) % 8 >= 4),
{
    lemma_standard_fields(raw);
    let f = (raw / 0x1000) % 8;
    assert(f % 4 == (raw / 0x1000) % 4) by (nonlinear_arith)
        requires
            f == (raw / 0x1000) % 8,
    ;
}

/// The I-type immediate of a 32-bit word: bits 20..32 as a signed 12-bit value.
pub open spec fn word_i_immediate(raw: u32) -> int {
    (raw / 0x10_0000) as int - if raw / 0x10_0000 >= 0x800 {
        0x1000int
    } else {
        0int
    }
}

/// Decoding of the words that build jump targets, from their bits: JALR
/// (opcode 0x67) and ADDI (opcode 0x13, funct3 0) take rd (bits 7..12), rs1
/// (bits 15..20) and the I-type immediate; ADD (opcode 0x33, funct3 0,
/// funct7 0) takes rd, rs1 and rs2 (bits 20..25), while any other funct7
/// there (SUB among them) is no ADD; LUI (0x37) and AUIPC (0x17) take rd
/// and bits 12..32 shifted up by twelve, as a signed 32-bit value.
pub proof fn law_target_building_decoding(raw: u32)
    ensures
        raw % 0x80 == 0x67 ==> {
            let d = instr_meaning(raw, 4);
            &&& d.kind == CfgInstrKind::Jalr
            &&& d.rd == (raw / 0x80) % 32
            &&& d.rs1 == (raw / 0x8000) % 32
            &&& d.imm == word_i_immediate(raw)
        },
        raw % 0x80 == 0x13 && (raw / 0x1000) % 8 == 0 ==> {
            let d = instr_meaning(raw, 4);
            &&& d.kind == CfgInstrKind::Addi
            &&& d.rd == (raw / 0x80) % 32
            &&& d.rs1 == (raw / 0x8000) % 32
            &&& d.imm == word_i_immediate(raw)
        },
        raw % 0x80 == 0x33 && (raw / 0x1000) % 8 == 0 && raw / 0x200_0000 == 0 ==> {
            let d = instr_meaning(raw, 4);
            &&& d.kind == CfgInstrKind::Add
            &&& d.rd == (raw / 0x80) % 32
            &&& d.rs1 == (raw / 0x8000) % 32
            &&& d.rs2 == (raw / 0x10_0000) % 32
        },
        raw % 0x80 == 0x33 && raw / 0x200_0000 != 0 ==> instr_meaning(raw, 4).kind
            == CfgInstrKind::Unknown && instr_meaning(raw, 4).rd == (raw / 0x80) % 32,
        raw % 0x80 == 0x37 || raw % 0x80 == 0x17 ==> {
            let d = instr_meaning(raw, 4);
            &&& d.kind == (if raw % 0x80 == 0x37 {
                CfgInstrKind::Lui
            } else {
                CfgInstrKind::Auipc
            })
            &&& d.rd == (raw / 0x80) % 32
            &&& d.imm == ((raw / 0x1000) * 0x1000) as int - if raw / 0x1000 >= 0x8_0000 {
                0x1_0000_0000int
            } else {
                0int
            }
        },
{
    lemma_standard_fields(raw);
}

/// The fields of a 16-bit instruction word, by division.
proof fn lemma_compressed_fields(raw: u16)
    ensures
        field(raw as int, 0, 2) == raw % 4,
        field(raw as int, 13, 3) == raw / 0x2000,
        field(raw as int, 12, 1) == (raw / 0x1000) % 2,
        field(raw as int, 7, 5) == (raw / 0x80) % 32,
        field(raw as int, 2, 5) == (raw / 4) % 32,
        field(raw as int, 7, 3) == (raw / 0x80) % 8,
        field(raw as int, 2, 3) == (raw / 4) % 8,
{
    lemma2_to64();
    assert(raw / 0x2000 < 8);
}

/// Decoding of the compressed jumps, moves and loads, from their bits
/// (quadrant in bits 0..2, funct3 in bits 13..16): in quadrant 2 with
/// funct3 4, C.JR (bit 12 clear, rs2 field zero) jumps through rd without
/// linking, C.JALR (bit 12 set) links ra, C.MV copies rs2 into rd and C.ADD
/// adds rs2 to rd; C.LWSP and C.LDSP (funct3 2 and 3, rd not zero) load 4
/// and 8 sign-extending bytes from the stack pointer; in quadrant 0, C.LW
/// and C.LD (funct3 2 and 3) load 4 and 8 sign-extending bytes into the
/// register 8 + bits 2..5 from the register 8 + bits 7..10.
pub proof fn law_compressed_decoding(raw: u16)
    ensures
        ({
            let d = instr_meaning(raw as u32, 2);
            let rd = (raw / 0x80) % 32;
            let rs2 = (raw / 4) % 32;
            let bit12 = (raw / 0x1000) % 2;
            raw % 4 == 2 && raw / 0x2000 == 4 && rd != 0 ==> {
                &&& bit12 == 0 && rs2 == 0 ==> d.kind == CfgInstrKind::Jalr && d.rd == 0 && d.rs1
                    == rd && d.imm == 0
                &&& bit12 == 1 && rs2 == 0 ==> d.kind == CfgInstrKind::Jalr && d.rd == 1 && d.rs1
                    == rd && d.imm == 0
                &&& bit12 == 0 && rs2 != 0 ==> d.kind == CfgInstrKind::Move && d.rd == rd && d.rs1
                    == rs2
                &&& bit12 == 1 && rs2 != 0 ==> d.kind == CfgInstrKind::Add && d.rd == rd && d.rs1
                    == rd && d.rs2 == rs2
            }
        }),
        ({
            let d = instr_meaning(raw as u32, 2);
            let rd = (raw / 0x80) % 32;
            raw % 4 == 2 && (raw / 0x2000 == 2 || raw / 0x2000 == 3) && rd != 0 ==> {
                &&& d.kind == CfgInstrKind::Load
                &&& d.rd == rd
                &&& d.rs1 == 2
                &&& d.width == (if raw / 0x2000 == 2 {
                    4u8
                } else {
                    8u8
                })
                &&& !d.is_unsigned
            }
        }),
        ({
            let d = instr_meaning(raw as u32, 2);
            raw % 4 == 0 && (raw / 0x2000 == 2 || raw / 0x2000 == 3) ==> {
                &&& d.kind == CfgInstrKind::Load
                &&& d.rd == (raw / 4) % 8 + 8
                &&& d.rs1 == (raw / 0x80) % 8 + 8
                &&& d.width == (if raw / 0x2000 == 2 {
                    4u8
                } else {
                    8u8
                })
                &&& !d.is_unsigned
            }
        }),
{
    lemma_compressed_fields(raw);
    assert((raw as u32) as u16 == raw);
}

/// The JAL word that links `rd` and jumps by `offset`, laid out as the ISA
/// specifies: offset bits 12..20 at word bits 12..20, offset bit 11 at word
/// bit 20, offset bits 1..11 at word bits 21..31, the sign (offset bit 20)
/// at word bit 31.
pub open spec fn jal_word(rd: int, offset: int) -> int {
    let u = if offset < 0 {
        offset + 0x20_0000
    } else {
        offset
    };
    0x6F + rd * 0x80 + ((u / 0x1000) % 0x100) * 0x1000 + ((u / 0x800) % 2) * 0x10_0000 + ((u / 2)
        % 0x400) * 0x20_0000 + (u / 0x10_0000) * 0x8000_0000
}

/// Decoding inverts the JAL layout: the word that links `rd` and jumps by
/// an even offset in range decodes as a JAL with that rd and offset.
pub proof fn law_jal_round_trip(rd: int, offset: int)
    requires
        0 <= rd < 32,
        -0x10_0000 <= offset < 0x10_0000,
        offset % 2 == 0,
    ensures
        0 <= jal_word(rd, offset) < 0x1_0000_0000,
        instr_meaning(jal_word(rd, offset) as u32, 4).kind == CfgInstrKind::Jal,
        instr_meaning(jal_word(rd, offset) as u32, 4).rd == rd,
        instr_meaning(jal_word(rd, offset) as u32, 4).imm == offset,
{
    let u = if offset < 0 {
        offset + 0x20_0000
    } else {
        offset
    };
    let a = (u / 0x1000) % 0x100;
    let b = (u / 0x800) % 2;
    let c = (u / 2) % 0x400;
    let sg = u / 0x10_0000;
    assert(u == sg * 0x10_0000 + a * 0x1000 + b * 0x800 + c * 2) by {
        assert(0 <= u < 0x20_0000 && u % 2 == 0);
    }
    let x = jal_word(rd, offset);
    assert(0 <= sg <= 1);
    assert(x == 0x6F + rd * 0x80 + a * 0x1000 + b * 0x10_0000 + c * 0x20_0000 + sg * 0x8000_0000);
    lemma2_to64();
    lemma_field_of(x, 0, 7, rd + 0x20 * (a + 0x100 * (b + 2 * c + 0x800 * sg)), 0x6F, 0);
    lemma_field_of(x, 7, 5, a + 0x100 * (b + 2 * c + 0x800 * sg), rd, 0x6F);
    lemma_field_of(x, 12, 8, b + 2 * c + 0x800 * sg, a, 0x6F + rd * 0x80);
    lemma_field_of(x, 20, 1, c + 0x400 * sg, b, 0x6F + rd * 0x80 + a * 0x1000);
    lemma_field_of(x, 21, 10, sg, c, 0x6F + rd * 0x80 + a * 0x1000 + b * 0x10_0000);
    lemma_field_of(x, 31, 1, 0, sg, 0x6F + rd * 0x80 + a * 0x1000 + b * 0x10_0000 + c * 0x20_0000);
    assert((x as u32) as int == x);
}

/// The conditional-branch word (funct3 `f3`) comparing `rs1` with `rs2`
/// and branching by `offset`, laid out as the ISA specifies: offset bit 11
/// at word bit 7, bits 1..5 at 8..12, bits 5..11 at 25..31 and the sign
/// (offset bit 12) at bit 31.
pub open spec fn branch_word(f3: int, rs1: int, rs2: int, offset: int) -> int {
    let u = if offset < 0 {
        offset + 0x2000
    } else {
        offset
    };
    0x63 + ((u / 0x800) % 2) * 0x80 + ((u / 2) % 0x10) * 0x100 + f3 * 0x1000 + rs1 * 0x8000 + rs2
        * 0x10_0000 + ((u / 0x20) % 0x40) * 0x200_0000 + (u / 0x1000) * 0x8000_0000
}

/// Decoding inverts the branch layout: the word that compares two registers
/// and branches by an even offset in range decodes as a branch on those
/// registers by that offset.
pub proof fn law_branch_round_trip(f3: int, rs1: int, rs2: int, offset: int)
    requires
        0 <= f3 < 8,
        0 <= rs1 < 32,
        0 <= rs2 < 32,
        -0x1000 <= offset < 0x1000,
        offset % 2 == 0,
    ensures
        0 <= branch_word(f3, rs1, rs2, offset) < 0x1_0000_0000,
        instr_meaning(branch_word(f3, rs1, rs2, offset) as u32, 4).kind == CfgInstrKind::Branch,
        instr_meaning(branch_word(f3, rs1, rs2, offset) as u32, 4).rs1 == rs1,
        instr_meaning(branch_word(f3, rs1, rs2, offset) as u32, 4).rs2 == rs2,
        instr_meaning(branch_word(f3, rs1, rs2, offset) as u32, 4).imm == offset,
{
    let u = if offset < 0 {
        offset + 0x2000
    } else {
        offset
    };
    let e = (u / 0x800) % 2;
    let l = (u / 2) % 0x10;
    let m = (u / 0x20) % 0x40;
    let sg = u / 0x1000;
    assert(u == sg * 0x1000 + e * 0x800 + m * 0x20 + l * 2) by {
        assert(0 <= u < 0x2000 && u % 2 == 0);
    }
    let x = branch_word(f3, rs1, rs2, offset);
    assert(0 <= sg <= 1);
    lemma2_to64();
    let low1 = 0x63 + e * 0x80;
    let low2 = low1 + l * 0x100;
    let low3 = low2 + f3 * 0x1000;
    let low4 = low3 + rs1 * 0x8000;
    let low5 = low4 + rs2 * 0x10_0000;
    let low6 = low5 + m * 0x200_0000;
    assert(x == low6 + sg * 0x8000_0000);
    lemma_field_of(
        x,
        0,
        7,
        e + 2 * (l + 0x10 * (f3 + 8 * (rs1 + 0x20 * (rs2 + 0x20 * (m + 0x40 * sg))))),
        0x63,
        0,
    );
    lemma_field_of(x, 7, 1, l + 0x10 * (f3 + 8 * (rs1 + 0x20 * (rs2 + 0x20 * (m + 0x40 * sg)))), e, 0x63);
    lemma_field_of(x, 8, 4, f3 + 8 * (rs1 + 0x20 * (rs2 + 0x20 * (m + 0x40 * sg))), l, low1);
    lemma_field_of(x, 15, 5, rs2 + 0x20 * (m + 0x40 * sg), rs1, low3);
    lemma_field_of(x, 20, 5, m + 0x40 * sg, rs2, low4);
    lemma_field_of(x, 25, 6, sg, m, low5);
    lemma_field_of(x, 31, 1, 0, sg, low6);
    assert((x as u32) as int == x);
}

/// The `len`-bit field at `lo` of a number laid out as `hi`, then `mid` in
/// those bits, then `low` below them, is `mid`.
proof fn lemma_field_of(x: int, lo: nat, len: nat, hi: int, mid: int, low: int)
    requires
        x == (hi * pow2(len) + mid) * pow2(lo) + low,
        0 <= mid < pow2(len),
        0 <= low < pow2(lo),
    ensures
        field(x, lo, len) == mid,
{
    lemma_pow2_pos(lo);
    lemma_pow2_pos(len);
    lemma_fundamental_div_mod_converse(x, pow2(lo) as int, hi * pow2(len) + mid, low);
    lemma_fundamental_div_mod_converse(x / pow2(lo) as int, pow2(len) as int, hi, mid);
}

} // verus!
