//! Verified core of a RISC-V static recompiler: instruction decoding for
//! control-flow analysis, register-value tracking, ELF parsing and the
//! configuration logic of the code emitters.

pub mod analyzer;
pub mod arm64;
pub mod bits;
pub mod bytes;
pub mod debug;
pub mod dispatch;
pub mod decoder;
pub mod elf;
pub mod header;
pub mod htif;
pub mod inputs;
pub mod instruction_table;
pub mod ir;
pub mod layout;
pub mod memory;
pub mod sorted;
pub mod value;
pub mod text;
pub mod tracers;
pub mod registers;
pub mod c_config;
pub mod c_emitter;
pub mod cfg;
pub mod collections;
pub mod config;
pub mod signature;
pub mod syscalls;
