//! Host-target interface: the guest word through which riscv-tests programs
//! report their result.

use vstd::prelude::*;

verus! {

/// Guest address of the `tohost` word (the riscv-tests convention).
pub const TOHOST_ADDR: u64 = 0x8000_1000;

} // verus!
