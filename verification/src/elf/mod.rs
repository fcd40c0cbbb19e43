//! ELF parsing for RISC-V binaries: headers, sections, symbols and the
//! loadable image.

pub mod defs;
pub mod file;
pub mod image;
