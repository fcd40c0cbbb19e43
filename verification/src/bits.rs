//! Bit-field vocabulary shared by the decoders and parsers.

use vstd::prelude::*;
use vstd::arithmetic::power2::pow2;

verus! {

/// The `len`-bit field of `x` that starts at bit `lo`, as an unsigned integer.
pub open spec fn field(x: int, lo: nat, len: nat) -> int {
    (x / (pow2(lo) as int)) % (pow2(len) as int)
}

/// Two's-complement reading of the `width`-bit unsigned value `u`.
pub open spec fn sign_extend(u: int, width: nat) -> int
    recommends
        width > 0,
{
    if u >= pow2((width - 1) as nat) as int {
        u - pow2(width) as int
    } else {
        u
    }
}

/// `v` reduced modulo 2^64.
pub open spec fn wrap64(v: int) -> int {
    v % 0x1_0000_0000_0000_0000
}

} // verus!
