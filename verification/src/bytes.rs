//! Little-endian reading of byte sequences.

use vstd::prelude::*;

verus! {

/// The unsigned integer whose little-endian bytes are `s`.
pub open spec fn le_value(s: Seq<u8>) -> nat
    decreases s.len(),
{
    if s.len() == 0 {
        0
    } else {
        s[0] as nat + 256 * le_value(s.drop_first())
    }
}

/// 256 to the power `n`.
pub open spec fn pow256(n: nat) -> nat
    decreases n,
{
    if n == 0 {
        1
    } else {
        256 * pow256((n - 1) as nat)
    }
}

/// The little-endian value of `n` bytes is below 256^n.
pub proof fn lemma_le_value_bound(s: Seq<u8>)
    ensures
        le_value(s) < pow256(s.len()),
    decreases s.len(),
{
    if s.len() > 0 {
        lemma_le_value_bound(s.drop_first());
    }
}

/// 256^n for the widths that fit a machine word.
pub proof fn lemma_pow256_values()
    ensures
        pow256(0) == 1,
        pow256(1) == 0x100,
        pow256(2) == 0x1_0000,
        pow256(3) == 0x100_0000,
        pow256(4) == 0x1_0000_0000,
        pow256(5) == 0x100_0000_0000,
        pow256(6) == 0x1_0000_0000_0000,
        pow256(7) == 0x100_0000_0000_0000,
        pow256(8) == 0x1_0000_0000_0000_0000,
{
    reveal_with_fuel(pow256, 9);
}

/// 256^n grows with n.
pub proof fn lemma_pow256_mono(a: nat, b: nat)
    requires
        a <= b,
    ensures
        pow256(a) <= pow256(b),
    decreases b,
{
    if a < b {
        lemma_pow256_mono(a, (b - 1) as nat);
    }
}

/// Little-endian value of the `n` bytes of `data` at `offset` (at most 8).
pub fn read_le(data: &[u8], offset: usize, n: usize) -> (r: u64)
    requires
        n <= 8,
        offset + n <= data@.len(),
    ensures
        r as nat == le_value(data@.subrange(offset as int, offset + n)),
{
    let ghost end = offset + n;
    let mut v: u64 = 0;
    let mut k: usize = n;
    proof {
        assert(data@.subrange(end, end) =~= Seq::<u8>::empty());
    }
    while k > 0
        invariant
            n <= 8,
            offset + n <= data.len(),
            end == offset + n,
            k <= n,
            v as nat == le_value(data@.subrange(offset + k, end)),
        decreases k,
    {
        let ghost rest = data@.subrange(offset + k, end);
        let ghost longer = data@.subrange(offset + k - 1, end);
        proof {
            assert(longer.drop_first() =~= rest);
            assert(longer[0] == data@[offset + k - 1]);
            lemma_le_value_bound(rest);
            lemma_pow256_mono(rest.len(), 7);
            lemma_pow256_values();
            assert(rest.len() == n - k);
            assert(v < 0x100_0000_0000_0000);
        }
        let idx: usize = offset + (k - 1);
        let b = data[idx] as u64;
        let shifted = v * 256;
        v = shifted + b;
        k -= 1;
    }
    v
}

/// Little-endian u16 at `offset`.
pub fn read_le16(data: &[u8], offset: usize) -> (r: u16)
    requires
        offset + 2 <= data@.len(),
    ensures
        r as nat == le_value(data@.subrange(offset as int, offset + 2)),
{
    let v = read_le(data, offset, 2);
    proof {
        lemma_le_value_bound(data@.subrange(offset as int, offset + 2));
        lemma_pow256_values();
    }
    v as u16
}

/// Little-endian u32 at `offset`.
pub fn read_le32(data: &[u8], offset: usize) -> (r: u32)
    requires
        offset + 4 <= data@.len(),
    ensures
        r as nat == le_value(data@.subrange(offset as int, offset + 4)),
{
    let v = read_le(data, offset, 4);
    proof {
        lemma_le_value_bound(data@.subrange(offset as int, offset + 4));
        lemma_pow256_values();
    }
    v as u32
}

/// Little-endian u64 at `offset`.
pub fn read_le64(data: &[u8], offset: usize) -> (r: u64)
    requires
        offset + 8 <= data@.len(),
    ensures
        r as nat == le_value(data@.subrange(offset as int, offset + 8)),
{
    read_le(data, offset, 8)
}

} // verus!
