//! Lowering helpers of the ARM64 backend that work on plain operands:
//! immediates and comparisons, reads of state fields, memory loads, and the
//! bit-counting and byte-combining sequences.

use vstd::prelude::*;

use super::emitter::{cache_name, is_w_reg, load_imm_text, reg32, reg64};
use super::{line, mem_op, Arm64Emitter};
use crate::config::{InstretMode, Xlen};
use crate::registers::{INSTRET, STATE_PTR};
use crate::text::{decimal, hex_padded, push_decimal, push_hex_padded, push_str, str_eq, string_of};

verus! {

broadcast use vstd::std_specs::hash::group_hash_axioms;

/// `op a, b` as an indented line.
pub open spec fn op2(op: Seq<char>, a: Seq<char>, b: Seq<char>) -> Seq<char> {
    line(op + " "@ + a + ", "@ + b)
}

/// `op a, b, c` as an indented line.
pub open spec fn op3(op: Seq<char>, a: Seq<char>, b: Seq<char>, c: Seq<char>) -> Seq<char> {
    line(op + " "@ + a + ", "@ + b + ", "@ + c)
}

/// The 12-bit add/sub immediate encoding of `|imm|`: the value itself when
/// it fits in 12 bits, else the value divided by 4096 (shifted by 12) when
/// it is a multiple of 4096 that fits in 24 bits.
pub open spec fn addsub_parts(imm: i64) -> Option<(u16, bool)> {
    let a: int = if imm < 0 {
        -imm
    } else {
        imm as int
    };
    if imm == i64::MIN {
        None
    } else if a <= 0xFFF {
        Some((a as u16, false))
    } else if a <= 0xFF_F000 && a % 4096 == 0 {
        Some(((a / 4096) as u16, true))
    } else {
        None
    }
}

/// Decimal digits of `|v|`.
pub open spec fn magnitude_text(v: int) -> Seq<char> {
    decimal(if v < 0 {
        (-v) as nat
    } else {
        v as nat
    })
}

/// The two's complement bits of a signed immediate.
pub open spec fn imm_bits(v: i64) -> u64 {
    v as u64
}

/// Lines that compare a register with an immediate.
pub open spec fn compare_imm_text(x: Seq<char>, left: Seq<char>, imm: i64, rv32: bool) -> Seq<char> {
    if 0 <= imm <= 0xFFF {
        x + line("cmp "@ + left + ", #"@ + magnitude_text(imm as int))
    } else if imm < 0 && -imm <= 0xFFF {
        x + line("cmn "@ + left + ", #"@ + magnitude_text(imm as int))
    } else if let Some((imm12, shift12)) = addsub_parts(imm) {
        let shift = if shift12 {
            ", lsl #12"@
        } else {
            ""@
        };
        if imm >= 0 {
            x + line("cmp "@ + left + ", #"@ + magnitude_text(imm12 as int) + shift)
        } else {
            x + line("cmn "@ + left + ", #"@ + magnitude_text(imm12 as int) + shift)
        }
    } else {
        let temp = if rv32 {
            "w1"@
        } else {
            "x1"@
        };
        x + load_imm_text(temp, imm_bits(imm)) + line(
            "cmp "@ + left + ", "@ + if rv32 {
                reg32(temp)
            } else {
                temp
            },
        )
    }
}

/// Population count of a 64-bit register, by halving sums.
pub open spec fn cpop64_text(x: Seq<char>, d: Seq<char>, t: Seq<char>) -> Seq<char> {
    x + op3("lsr"@, t, d, "#1"@) + op3("and"@, t, t, "#0x5555555555555555"@) + op3("sub"@, d, d, t)
        + op3("lsr"@, t, d, "#2"@) + op3("and"@, t, t, "#0x3333333333333333"@) + op3(
        "and"@,
        d,
        d,
        "#0x3333333333333333"@,
    ) + op3("add"@, d, d, t) + op3("lsr"@, t, d, "#4"@) + op3("add"@, d, d, t) + op3(
        "and"@,
        d,
        d,
        "#0x0f0f0f0f0f0f0f0f"@,
    ) + op3("lsr"@, t, d, "#8"@) + op3("add"@, d, d, t) + op3("lsr"@, t, d, "#16"@) + op3(
        "add"@,
        d,
        d,
        t,
    ) + op3("lsr"@, t, d, "#32"@) + op3("add"@, d, d, t) + op3("and"@, d, d, "#0x7f"@)
}

/// Population count of a 32-bit register, by halving sums.
pub open spec fn cpop32_text(x: Seq<char>, d: Seq<char>, t: Seq<char>) -> Seq<char> {
    x + op3("lsr"@, t, d, "#1"@) + op3("and"@, t, t, "#0x55555555"@) + op3("sub"@, d, d, t) + op3(
        "lsr"@,
        t,
        d,
        "#2"@,
    ) + op3("and"@, t, t, "#0x33333333"@) + op3("and"@, d, d, "#0x33333333"@) + op3("add"@, d, d, t)
        + op3("lsr"@, t, d, "#4"@) + op3("add"@, d, d, t) + op3("and"@, d, d, "#0x0f0f0f0f"@) + op3(
        "lsr"@,
        t,
        d,
        "#8"@,
    ) + op3("add"@, d, d, t) + op3("lsr"@, t, d, "#16"@) + op3("add"@, d, d, t) + op3(
        "and"@,
        d,
        d,
        "#0x3f"@,
    )
}

/// OR-combine within bytes: each byte becomes 0xff if nonzero, else 0.
pub open spec fn orc8_text(x: Seq<char>, d: Seq<char>, t: Seq<char>, ones: Seq<char>) -> Seq<char> {
    x + op3("lsr"@, t, d, "#1"@) + op3("orr"@, d, d, t) + op3("lsr"@, t, d, "#2"@) + op3(
        "orr"@,
        d,
        d,
        t,
    ) + op3("lsr"@, t, d, "#4"@) + op3("orr"@, d, d, t) + op3("and"@, d, d, ones) + op2(
        "mov"@,
        t,
        "#0xff"@,
    ) + op3("mul"@, d, d, t)
}

/// Load instruction for a memory access of a width and signedness.
pub open spec fn load_text(addr: Seq<char>, dest: Seq<char>, width: u8, signed: bool, rv32: bool) -> Seq<
    char,
> {
    let d32 = reg32(dest);
    let m = "["@ + addr + "]"@;
    if width == 1 && !signed {
        op2("ldrb"@, d32, m)
    } else if width == 1 {
        op2("ldrsb"@, if rv32 { d32 } else { dest }, m)
    } else if width == 2 && !signed {
        op2("ldrh"@, d32, m)
    } else if width == 2 {
        op2("ldrsh"@, if rv32 { d32 } else { dest }, m)
    } else if width == 4 && signed && !rv32 {
        op2("ldrsw"@, dest, m)
    } else if width == 8 {
        op2("ldr"@, dest, m)
    } else {
        op2("ldr"@, d32, m)
    }
}

impl Arm64Emitter {
    /// Emit `op a, b`.
    pub fn emit_op2(&mut self, op: &str, a: &str, b: &str)
        ensures
            final(self).out@ == old(self).out@ + op2(op@, a@, b@),
            old(self).keeps(*final(self)),
    {
        let mut l = string_of(op);
        push_str(&mut l, " ");
        push_str(&mut l, a);
        push_str(&mut l, ", ");
        push_str(&mut l, b);
        self.emit(l.as_str());
    }

    /// Emit `op a, b, c`.
    pub fn emit_op3(&mut self, op: &str, a: &str, b: &str, c: &str)
        ensures
            final(self).out@ == old(self).out@ + op3(op@, a@, b@, c@),
            old(self).keeps(*final(self)),
    {
        let mut l = string_of(op);
        push_str(&mut l, " ");
        push_str(&mut l, a);
        push_str(&mut l, ", ");
        push_str(&mut l, b);
        push_str(&mut l, ", ");
        push_str(&mut l, c);
        self.emit(l.as_str());
    }

    /// An immediate of the guest width as a signed 64-bit value (RV32
    /// values are sign-extended from bit 31).
    pub fn signed_imm(&self, v: u64) -> (r: i64)
        requires
            self.is_rv32() ==> v <= 0xFFFF_FFFFu64,
        ensures
            !self.is_rv32() ==> r == v as i64,
            self.is_rv32() ==> r == if v >= 0x8000_0000 {
                v - 0x1_0000_0000
            } else {
                v as int
            },
    {
        match self.config.xlen {
            Xlen::Rv64 => v as i64,
            Xlen::Rv32 => {
                if v >= 0x8000_0000 {
                    (v as i64) - 0x1_0000_0000
                } else {
                    v as i64
                }
            },
        }
    }

    /// The 12-bit add/sub immediate encoding of `|imm|`, optionally shifted
    /// left by 12, if there is one.
    pub fn addsub_imm_parts(imm: i64) -> (r: Option<(u16, bool)>)
        ensures
            r == addsub_parts(imm),
            r matches Some((c, s)) ==> c <= 0xFFF && c * (if s {
                4096int
            } else {
                1int
            }) == (if imm < 0 {
                -imm
            } else {
                imm as int
            }),
    {
        if imm == i64::MIN {
            return None;
        }
        let abs: u64 = if imm < 0 {
            (-imm) as u64
        } else {
            imm as u64
        };
        if abs <= 0xFFF {
            Some((abs as u16, false))
        } else if abs <= 0x00FF_F000 && abs % 4096 == 0 {
            Some(((abs / 4096) as u16, true))
        } else {
            None
        }
    }

    /// Append the decimal digits of `|v|`.
    fn push_magnitude(s: &mut String, v: i64)
        ensures
            final(s)@ == old(s)@ + magnitude_text(v as int),
    {
        if v < 0 {
            if v == i64::MIN {
                push_decimal(s, 0x8000_0000_0000_0000u64);
            } else {
                push_decimal(s, (-v) as u64);
            }
        } else {
            push_decimal(s, v as u64);
        }
    }

    /// A 12-bit immediate chunk as a signed value.
    fn widen(v: u16) -> (r: i64)
        ensures
            r == v,
    {
        v as i64
    }

    /// The two's complement bits of a signed immediate.
    fn imm_to_bits(v: i64) -> (r: u64)
        ensures
            r == imm_bits(v),
    {
        v as u64
    }

    /// Compare a register with an immediate (`cmp`/`cmn` with a 12-bit
    /// immediate when one encodes it, else through `x1`).
    pub fn emit_cmp_with_imm(&mut self, left_reg: &str, imm: i64)
        requires
            imm != i64::MIN,
            old(self).is_rv32() ==> 0 <= imm <= 0xFFFF_FFFF || -0xFFF <= imm < 0 || addsub_parts(
                imm,
            ) is Some,
        ensures
            final(self).out@ == compare_imm_text(old(self).out@, left_reg@, imm, old(self).is_rv32()),
            old(self).keeps(*final(self)),
    {
        if 0 <= imm && imm <= 0xFFF {
            let mut l = string_of("cmp ");
            push_str(&mut l, left_reg);
            push_str(&mut l, ", #");
            Self::push_magnitude(&mut l, imm);
            self.emit(l.as_str());
        } else if imm < 0 && -imm <= 0xFFF {
            let mut l = string_of("cmn ");
            push_str(&mut l, left_reg);
            push_str(&mut l, ", #");
            Self::push_magnitude(&mut l, imm);
            self.emit(l.as_str());
        } else {
            match Self::addsub_imm_parts(imm) {
                Some((imm12, shift12)) => {
                    let shift = if shift12 {
                        ", lsl #12"
                    } else {
                        ""
                    };
                    let mut l = if imm >= 0 {
                        string_of("cmp ")
                    } else {
                        string_of("cmn ")
                    };
                    push_str(&mut l, left_reg);
                    push_str(&mut l, ", #");
                    Self::push_magnitude(&mut l, Self::widen(imm12));
                    push_str(&mut l, shift);
                    self.emit(l.as_str());
                },
                None => {
                    let rv32 = match self.config.xlen {
                        Xlen::Rv32 => true,
                        Xlen::Rv64 => false,
                    };
                    proof {
                        reveal_strlit("w1");
                        reveal_strlit("x1");
                    }
                    let temp = if rv32 {
                        "w1"
                    } else {
                        "x1"
                    };
                    let bits = Self::imm_to_bits(imm);
                    assert(is_w_reg(temp@) ==> bits <= 0xFFFF_FFFFu64);
                    self.load_imm(temp, bits);
                    let right = if rv32 {
                        Self::reg_32(temp)
                    } else {
                        string_of(temp)
                    };
                    let mut l = string_of("cmp ");
                    push_str(&mut l, left_reg);
                    push_str(&mut l, ", ");
                    push_str(&mut l, right.as_str());
                    self.emit(l.as_str());
                },
            }
        }
    }

    /// Store an immediate next pc to `state->pc`.
    pub fn emit_store_next_pc_imm(&mut self, next_pc: u64)
        requires
            old(self).is_rv32() ==> next_pc <= 0xFFFF_FFFFu64,
        ensures
            final(self).out@ == old(self).out@ + load_imm_text(
                if old(self).is_rv32() {
                    "w1"@
                } else {
                    "x1"@
                },
                next_pc,
            ) + line(
                mem_op(
                    "str"@,
                    if old(self).is_rv32() {
                        "w1"@
                    } else {
                        "x1"@
                    },
                    STATE_PTR@,
                    old(self).layout.offset_pc as int,
                ),
            ),
            old(self).keeps(*final(self)),
    {
        let pc_offset = self.layout.offset_pc;
        proof {
            reveal_strlit("w1");
            reveal_strlit("x1");
        }
        match self.config.xlen {
            Xlen::Rv32 => {
                self.load_imm("w1", next_pc);
                self.emit_mem_op("str", "w1", STATE_PTR, pc_offset);
            },
            Xlen::Rv64 => {
                self.load_imm("x1", next_pc);
                self.emit_mem_op("str", "x1", STATE_PTR, pc_offset);
            },
        }
    }

    /// Materialize an immediate into `dest` and return `dest`.
    pub fn emit_expr_imm(&mut self, v: u64, dest: &str) -> (r: String)
        requires
            is_w_reg(dest@) ==> v <= 0xFFFF_FFFFu64,
        ensures
            r@ == dest@,
            final(self).out@ == old(self).out@ + if v == 0 {
                line("mov "@ + dest@ + ", #0"@)
            } else {
                load_imm_text(dest@, v)
            },
            old(self).keeps(*final(self)),
    {
        if v == 0 {
            let mut l = string_of("mov ");
            push_str(&mut l, dest);
            push_str(&mut l, ", #0");
            self.emit(l.as_str());
        } else {
            self.load_imm(dest, v);
        }
        string_of(dest)
    }

    /// Materialize a pc constant into `dest` and return `dest`.
    pub fn emit_expr_pc_const(&mut self, v: u64, dest: &str) -> (r: String)
        requires
            is_w_reg(dest@) ==> v <= 0xFFFF_FFFFu64,
        ensures
            r@ == dest@,
            final(self).out@ == old(self).out@ + load_imm_text(dest@, v),
            old(self).keeps(*final(self)),
    {
        self.load_imm(dest, v);
        string_of(dest)
    }

    /// Move the instret counter into `dest` (`reg32(dest)` is written for a
    /// 32-bit guest), from its cached register or from state.
    fn emit_read_instret_into(&mut self, dest: &str)
        ensures
            final(self).out@ == old(self).out@ + if old(self).config.instret_mode != InstretMode::Off {
                if old(self).is_rv32() {
                    op2("mov"@, dest@, reg32(INSTRET@))
                } else {
                    op2("mov"@, dest@, INSTRET@)
                }
            } else {
                line(mem_op("ldr"@, dest@, STATE_PTR@, old(self).layout.offset_instret as int))
            },
            old(self).keeps(*final(self)),
    {
        if self.config.instret_mode.counts() {
            match self.config.xlen {
                Xlen::Rv32 => {
                    let instret32 = Self::reg_32(INSTRET);
                    self.emit_op2("mov", dest, instret32.as_str());
                },
                Xlen::Rv64 => {
                    self.emit_op2("mov", dest, INSTRET);
                },
            }
        } else {
            let off = self.layout.offset_instret;
            self.emit_mem_op("ldr", dest, STATE_PTR, off);
        }
    }

    /// Read a CSR into `dest`: the cycle and instret counters (and, for
    /// RV32, their high halves) come from the instret counter; other CSRs
    /// read as zero with a comment.
    pub fn emit_expr_read_csr(&mut self, csr: u16, dest: &str) -> (r: String)
        requires
            old(self).layout.offset_instret + 4 <= usize::MAX,
        ensures
            r@ == dest@,
            final(self).out@ == old(self).out@ + if csr == 0xC00 || csr == 0xC02 || csr == 0xB00
                || csr == 0xB02 {
                if old(self).config.instret_mode != InstretMode::Off {
                    if old(self).is_rv32() {
                        op2("mov"@, dest@, reg32(INSTRET@))
                    } else {
                        op2("mov"@, dest@, INSTRET@)
                    }
                } else {
                    line(mem_op("ldr"@, dest@, STATE_PTR@, old(self).layout.offset_instret as int))
                }
            } else if (csr == 0xC80 || csr == 0xC82 || csr == 0xB80 || csr == 0xB82)
                && old(self).is_rv32() {
                if old(self).config.instret_mode != InstretMode::Off {
                    op3("lsr"@, reg64(dest@), INSTRET@, "#32"@)
                } else {
                    line(
                        mem_op("ldr"@, dest@, STATE_PTR@, old(self).layout.offset_instret + 4),
                    )
                }
            } else {
                "    // "@ + "CSR 0x"@ + hex_padded(csr as nat, 3) + " not implemented"@ + "\n"@
                    + line("mov "@ + dest@ + ", #0"@)
            },
            old(self).keeps(*final(self)),
    {
        let rv32 = match self.config.xlen {
            Xlen::Rv32 => true,
            Xlen::Rv64 => false,
        };
        if csr == 0xC00 || csr == 0xC02 || csr == 0xB00 || csr == 0xB02 {
            self.emit_read_instret_into(dest);
        } else if (csr == 0xC80 || csr == 0xC82 || csr == 0xB80 || csr == 0xB82) && rv32 {
            if self.config.instret_mode.counts() {
                let dest64 = Self::reg_64(dest);
                self.emit_op3("lsr", dest64.as_str(), INSTRET, "#32");
            } else {
                let off = self.layout.offset_instret + 4;
                self.emit_mem_op("ldr", dest, STATE_PTR, off);
            }
        } else {
            let mut c = string_of("CSR 0x");
            push_hex_padded(&mut c, csr as u64, 3);
            push_str(&mut c, " not implemented");
            self.emit_comment(c.as_str());
            let mut l = string_of("mov ");
            push_str(&mut l, dest);
            push_str(&mut l, ", #0");
            self.emit(l.as_str());
        }
        string_of(dest)
    }

    /// Read the instret counter into `dest`.
    pub fn emit_expr_read_instret(&mut self, dest: &str) -> (r: String)
        ensures
            r@ == dest@,
            final(self).out@ == old(self).out@ + if old(self).config.instret_mode != InstretMode::Off {
                if old(self).is_rv32() {
                    op2("mov"@, dest@, reg32(INSTRET@))
                } else {
                    op2("mov"@, dest@, INSTRET@)
                }
            } else {
                line(mem_op("ldr"@, dest@, STATE_PTR@, old(self).layout.offset_instret as int))
            },
            old(self).keeps(*final(self)),
    {
        self.emit_read_instret_into(dest);
        string_of(dest)
    }

    /// Read `state->pc` into `dest`.
    pub fn emit_expr_read_pc(&mut self, dest: &str) -> (r: String)
        ensures
            r@ == dest@,
            final(self).out@ == old(self).out@ + line(
                mem_op("ldr"@, dest@, STATE_PTR@, old(self).layout.offset_pc as int),
            ),
            old(self).keeps(*final(self)),
    {
        let off = self.layout.offset_pc;
        self.emit_mem_op("ldr", dest, STATE_PTR, off);
        string_of(dest)
    }

    /// Read `state->has_exited` into `dest`.
    pub fn emit_expr_read_exited(&mut self, dest: &str) -> (r: String)
        ensures
            r@ == dest@,
            final(self).out@ == old(self).out@ + line(
                mem_op("ldrb"@, reg32(dest@), STATE_PTR@, old(self).layout.offset_has_exited as int),
            ),
            old(self).keeps(*final(self)),
    {
        let off = self.layout.offset_has_exited;
        let d32 = Self::reg_32(dest);
        self.emit_mem_op("ldrb", d32.as_str(), STATE_PTR, off);
        string_of(dest)
    }

    /// Read `state->exit_code` into `dest`.
    pub fn emit_expr_read_exit_code(&mut self, dest: &str) -> (r: String)
        ensures
            r@ == dest@,
            final(self).out@ == old(self).out@ + line(
                mem_op("ldrb"@, reg32(dest@), STATE_PTR@, old(self).layout.offset_exit_code as int),
            ),
            old(self).keeps(*final(self)),
    {
        let off = self.layout.offset_exit_code;
        let d32 = Self::reg_32(dest);
        self.emit_mem_op("ldrb", d32.as_str(), STATE_PTR, off);
        string_of(dest)
    }

    /// Read the reservation address into `dest`.
    pub fn emit_expr_read_res_addr(&mut self, dest: &str) -> (r: String)
        ensures
            r@ == dest@,
            final(self).out@ == old(self).out@ + line(
                mem_op(
                    "ldr"@,
                    if old(self).is_rv32() {
                        reg32(dest@)
                    } else {
                        dest@
                    },
                    STATE_PTR@,
                    old(self).layout.offset_reservation_addr as int,
                ),
            ),
            old(self).keeps(*final(self)),
    {
        let off = self.layout.offset_reservation_addr;
        match self.config.xlen {
            Xlen::Rv32 => {
                let d32 = Self::reg_32(dest);
                self.emit_mem_op("ldr", d32.as_str(), STATE_PTR, off);
            },
            Xlen::Rv64 => {
                self.emit_mem_op("ldr", dest, STATE_PTR, off);
            },
        }
        string_of(dest)
    }

    /// Read the reservation valid flag into `dest`.
    pub fn emit_expr_read_res_valid(&mut self, dest: &str) -> (r: String)
        ensures
            r@ == dest@,
            final(self).out@ == old(self).out@ + line(
                mem_op(
                    "ldrb"@,
                    reg32(dest@),
                    STATE_PTR@,
                    old(self).layout.offset_reservation_valid as int,
                ),
            ),
            old(self).keeps(*final(self)),
    {
        let off = self.layout.offset_reservation_valid;
        let d32 = Self::reg_32(dest);
        self.emit_mem_op("ldrb", d32.as_str(), STATE_PTR, off);
        string_of(dest)
    }

    /// Read an IR temporary from its stack slot into `dest` (zero with a
    /// comment when the index has no slot).
    pub fn emit_expr_read_temp(&mut self, idx: u8, dest: &str) -> (r: String)
        ensures
            r@ == dest@,
            final(self).out@ == old(self).out@ + if idx < super::emitter::TEMP_SLOTS {
                line(
                    mem_op(
                        "ldr"@,
                        if old(self).is_rv32() {
                            reg32(dest@)
                        } else {
                            dest@
                        },
                        "sp"@,
                        idx * super::emitter::TEMP_SLOT_BYTES,
                    ),
                )
            } else {
                "    // "@ + "temp "@ + decimal(idx as nat) + " out of range"@ + "\n"@ + line(
                    "mov "@ + dest@ + ", #0"@,
                )
            },
            old(self).keeps(*final(self)),
    {
        match Self::temp_slot_offset(idx) {
            Some(offset) => {
                match self.config.xlen {
                    Xlen::Rv32 => {
                        let d32 = Self::reg_32(dest);
                        self.emit_mem_op("ldr", d32.as_str(), "sp", offset);
                    },
                    Xlen::Rv64 => {
                        self.emit_mem_op("ldr", dest, "sp", offset);
                    },
                }
            },
            None => {
                let mut c = string_of("temp ");
                push_decimal(&mut c, idx as u64);
                push_str(&mut c, " out of range");
                self.emit_comment(c.as_str());
                let mut l = string_of("mov ");
                push_str(&mut l, dest);
                push_str(&mut l, ", #0");
                self.emit(l.as_str());
            },
        }
        string_of(dest)
    }

    /// Read a named variable into `dest`: only `state` (the state pointer)
    /// is known; others read as zero with a comment.
    pub fn emit_expr_var(&mut self, name: &str, dest: &str) -> (r: String)
        ensures
            r@ == dest@,
            final(self).out@ == old(self).out@ + if name@ == "state"@ {
                if old(self).is_rv32() {
                    op2("mov"@, reg32(dest@), reg32(STATE_PTR@))
                } else {
                    op2("mov"@, dest@, STATE_PTR@)
                }
            } else {
                "    // "@ + "unsupported var: "@ + name@ + "\n"@ + line("mov "@ + dest@ + ", #0"@)
            },
            old(self).keeps(*final(self)),
    {
        if str_eq(name, "state") {
            match self.config.xlen {
                Xlen::Rv32 => {
                    let d32 = Self::reg_32(dest);
                    let s32 = Self::reg_32(STATE_PTR);
                    self.emit_op2("mov", d32.as_str(), s32.as_str());
                },
                Xlen::Rv64 => {
                    self.emit_op2("mov", dest, STATE_PTR);
                },
            }
        } else {
            let mut c = string_of("unsupported var: ");
            push_str(&mut c, name);
            self.emit_comment(c.as_str());
            let mut l = string_of("mov ");
            push_str(&mut l, dest);
            push_str(&mut l, ", #0");
            self.emit(l.as_str());
        }
        string_of(dest)
    }

    /// Load from the address expression `addr` into `dest` with the width and
    /// signedness of the access.
    pub fn emit_load_from_mem(&mut self, addr: &str, dest: &str, width: u8, signed: bool)
        ensures
            final(self).out@ == old(self).out@ + load_text(addr@, dest@, width, signed, old(self).is_rv32()),
            old(self).keeps(*final(self)),
    {
        let dest32 = Self::reg_32(dest);
        let rv32 = match self.config.xlen {
            Xlen::Rv32 => true,
            Xlen::Rv64 => false,
        };
        let mut m = string_of("[");
        push_str(&mut m, addr);
        push_str(&mut m, "]");
        if width == 1 && !signed {
            self.emit_op2("ldrb", dest32.as_str(), m.as_str());
        } else if width == 1 {
            if rv32 {
                self.emit_op2("ldrsb", dest32.as_str(), m.as_str());
            } else {
                self.emit_op2("ldrsb", dest, m.as_str());
            }
        } else if width == 2 && !signed {
            self.emit_op2("ldrh", dest32.as_str(), m.as_str());
        } else if width == 2 {
            if rv32 {
                self.emit_op2("ldrsh", dest32.as_str(), m.as_str());
            } else {
                self.emit_op2("ldrsh", dest, m.as_str());
            }
        } else if width == 4 && signed && !rv32 {
            self.emit_op2("ldrsw", dest, m.as_str());
        } else if width == 8 {
            self.emit_op2("ldr", dest, m.as_str());
        } else {
            self.emit_op2("ldr", dest32.as_str(), m.as_str());
        }
    }

    /// Compare two registers and set `dest` to the condition.
    pub fn emit_compare(&mut self, cond: &str, dest: &str, left: &str, right: &str)
        ensures
            final(self).out@ == old(self).out@ + op2("cmp"@, left@, right@) + op2(
                "cset"@,
                dest@,
                cond@,
            ),
            old(self).keeps(*final(self)),
    {
        self.emit_op2("cmp", left, right);
        self.emit_op2("cset", dest, cond);
    }

    /// Reload a spilled left operand from its stack slot and release the
    /// slot; nothing when it was not spilled.
    pub fn restore_spilled_left(&mut self, spill: Option<usize>, left_reg: &str)
        ensures
            spill is None ==> *final(self) == *old(self),
            spill matches Some(off) ==> final(self).out@ == old(self).out@ + line(
                mem_op(
                    "ldr"@,
                    if old(self).is_rv32() {
                        reg32(left_reg@)
                    } else {
                        left_reg@
                    },
                    "sp"@,
                    off as int,
                ),
            ) && final(self).spill_depth == if old(self).spill_depth > 0 {
                (old(self).spill_depth - 1) as usize
            } else {
                0
            },
            old(self).fixed(*final(self)),
            final(self).label_counter == old(self).label_counter,
            final(self).cold_cache == old(self).cold_cache,
    {
        if let Some(off) = spill {
            match self.config.xlen {
                Xlen::Rv32 => {
                    let l32 = Self::reg_32(left_reg);
                    self.emit_mem_op("ldr", l32.as_str(), "sp", off);
                },
                Xlen::Rv64 => {
                    self.emit_mem_op("ldr", left_reg, "sp", off);
                },
            }
            self.release_spill_slot();
        }
    }

    /// Population count of a 64-bit register in place (`x2` is scratch).
    pub fn emit_cpop64(&mut self, dest: &str)
        ensures
            final(self).out@ == cpop64_text(
                old(self).out@,
                dest@,
                if old(self).is_rv32() {
                    "w2"@
                } else {
                    "x2"@
                },
            ),
            old(self).keeps(*final(self)),
    {
        let t = self.temp3();
        self.emit_op3("lsr", t, dest, "#1");
        self.emit_op3("and", t, t, "#0x5555555555555555");
        self.emit_op3("sub", dest, dest, t);
        self.emit_op3("lsr", t, dest, "#2");
        self.emit_op3("and", t, t, "#0x3333333333333333");
        self.emit_op3("and", dest, dest, "#0x3333333333333333");
        self.emit_op3("add", dest, dest, t);
        self.emit_op3("lsr", t, dest, "#4");
        self.emit_op3("add", dest, dest, t);
        self.emit_op3("and", dest, dest, "#0x0f0f0f0f0f0f0f0f");
        self.emit_op3("lsr", t, dest, "#8");
        self.emit_op3("add", dest, dest, t);
        self.emit_op3("lsr", t, dest, "#16");
        self.emit_op3("add", dest, dest, t);
        self.emit_op3("lsr", t, dest, "#32");
        self.emit_op3("add", dest, dest, t);
        self.emit_op3("and", dest, dest, "#0x7f");
    }

    /// Population count of a 32-bit register in place (`w2` is scratch).
    pub fn emit_cpop32(&mut self, dest32: &str)
        ensures
            final(self).out@ == cpop32_text(
                old(self).out@,
                dest32@,
                reg32(
                    if old(self).is_rv32() {
                        "w2"@
                    } else {
                        "x2"@
                    },
                ),
            ),
            old(self).keeps(*final(self)),
    {
        let tmp = self.temp3();
        let t32 = Self::reg_32(tmp);
        let t = t32.as_str();
        self.emit_op3("lsr", t, dest32, "#1");
        self.emit_op3("and", t, t, "#0x55555555");
        self.emit_op3("sub", dest32, dest32, t);
        self.emit_op3("lsr", t, dest32, "#2");
        self.emit_op3("and", t, t, "#0x33333333");
        self.emit_op3("and", dest32, dest32, "#0x33333333");
        self.emit_op3("add", dest32, dest32, t);
        self.emit_op3("lsr", t, dest32, "#4");
        self.emit_op3("add", dest32, dest32, t);
        self.emit_op3("and", dest32, dest32, "#0x0f0f0f0f");
        self.emit_op3("lsr", t, dest32, "#8");
        self.emit_op3("add", dest32, dest32, t);
        self.emit_op3("lsr", t, dest32, "#16");
        self.emit_op3("add", dest32, dest32, t);
        self.emit_op3("and", dest32, dest32, "#0x3f");
    }

    /// OR-combine within the bytes of a 64-bit register in place.
    pub fn emit_orc8_64(&mut self, dest: &str)
        ensures
            final(self).out@ == orc8_text(
                old(self).out@,
                dest@,
                if old(self).is_rv32() {
                    "w2"@
                } else {
                    "x2"@
                },
                "#0x0101010101010101"@,
            ),
            old(self).keeps(*final(self)),
    {
        let t = self.temp3();
        self.emit_op3("lsr", t, dest, "#1");
        self.emit_op3("orr", dest, dest, t);
        self.emit_op3("lsr", t, dest, "#2");
        self.emit_op3("orr", dest, dest, t);
        self.emit_op3("lsr", t, dest, "#4");
        self.emit_op3("orr", dest, dest, t);
        self.emit_op3("and", dest, dest, "#0x0101010101010101");
        self.emit_op2("mov", t, "#0xff");
        self.emit_op3("mul", dest, dest, t);
    }

    /// OR-combine within the bytes of a 32-bit register in place.
    pub fn emit_orc8_32(&mut self, dest32: &str)
        ensures
            final(self).out@ == orc8_text(
                old(self).out@,
                dest32@,
                reg32(
                    if old(self).is_rv32() {
                        "w2"@
                    } else {
                        "x2"@
                    },
                ),
                "#0x01010101"@,
            ),
            old(self).keeps(*final(self)),
    {
        let tmp = self.temp3();
        let t32 = Self::reg_32(tmp);
        let t = t32.as_str();
        self.emit_op3("lsr", t, dest32, "#1");
        self.emit_op3("orr", dest32, dest32, t);
        self.emit_op3("lsr", t, dest32, "#2");
        self.emit_op3("orr", dest32, dest32, t);
        self.emit_op3("lsr", t, dest32, "#4");
        self.emit_op3("orr", dest32, dest32, t);
        self.emit_op3("and", dest32, dest32, "#0x01010101");
        self.emit_op2("mov", t, "#0xff");
        self.emit_op3("mul", dest32, dest32, t);
    }

    /// Set `state->has_exited`.
    pub fn emit_write_exited(&mut self)
        ensures
            final(self).out@ == old(self).out@ + line("mov w0, #1"@) + line(
                mem_op("strb"@, "w0"@, STATE_PTR@, old(self).layout.offset_has_exited as int),
            ),
            old(self).keeps(*final(self)),
    {
        let off = self.layout.offset_has_exited;
        self.emit("mov w0, #1");
        self.emit_mem_op("strb", "w0", STATE_PTR, off);
    }

    /// The block a target pc lands in: the merged block for an absorbed
    /// address, else the pc itself.
    pub fn resolve_target_pc(&self, pc: u64) -> (r: u64)
        ensures
            r == if self.inputs.absorbed_to_merged@.contains_key(pc) {
                self.inputs.absorbed_to_merged@[pc]
            } else {
                pc
            },
    {
        match self.inputs.absorbed_to_merged.get(&pc) {
            Some(merged) => *merged,
            None => pc,
        }
    }
}

} // verus!
