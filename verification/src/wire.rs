//! Big-endian integer fields of the fixture format.
//!
//! The fixture header stores the source-data length and the packet count as
//! 4-byte big-endian unsigned integers. The encoding and its value function
//! are stated here, together with the round-trip law that ties them.

use vstd::arithmetic::div_mod::{lemma_div_denominator, lemma_fundamental_div_mod};
use vstd::prelude::*;

verus! {

/// The 4-byte big-endian encoding of `x` (the low 32 bits of it).
pub open spec fn be32_bytes(x: int) -> Seq<u8> {
    seq![
        (x / 0x1000000 % 256) as u8,
        (x / 0x10000 % 256) as u8,
        (x / 0x100 % 256) as u8,
        (x % 256) as u8,
    ]
}

/// The integer a 4-byte big-endian field holds.
pub open spec fn be32_value(s: Seq<u8>) -> int
    recommends
        s.len() == 4,
{
    s[0] * 0x1000000 + s[1] * 0x10000 + s[2] * 0x100 + s[3]
}

/// The integer a 2-byte big-endian field holds.
pub open spec fn be16_value(hi: u8, lo: u8) -> int {
    hi * 0x100 + lo
}

/// The integer a 5-byte big-endian field holds (the 40-bit transfer length).
pub open spec fn be40_value(s: Seq<u8>) -> int
    recommends
        s.len() == 5,
{
    s[0] * 0x100000000 + s[1] * 0x1000000 + s[2] * 0x10000 + s[3] * 0x100 + s[4]
}

/// Writes `x` as 4 big-endian bytes.
pub fn be32(x: u32) -> (r: Vec<u8>)
    ensures
        r@ == be32_bytes(x as int),
        r@.len() == 4,
{
    let mut out: Vec<u8> = Vec::new();
    out.push((x / 0x1000000 % 256) as u8);
    out.push((x / 0x10000 % 256) as u8);
    out.push((x / 0x100 % 256) as u8);
    out.push((x % 256) as u8);
    proof {
        assert(out@ =~= be32_bytes(x as int));
    }
    out
}

/// A 4-byte big-endian field decodes back to the integer it was written from:
/// the stored packet count and source-data length are exactly recoverable.
pub proof fn lemma_be32_roundtrip(x: int)
    requires
        0 <= x < 0x100000000,
    ensures
        be32_value(be32_bytes(x)) == x,
{
    lemma_fundamental_div_mod(x, 0x100);
    lemma_fundamental_div_mod(x / 0x100, 0x100);
    lemma_fundamental_div_mod(x / 0x10000, 0x100);
    lemma_div_denominator(x, 0x100, 0x100);
    lemma_div_denominator(x, 0x10000, 0x100);
    assert(x / 0x1000000 % 256 == x / 0x1000000) by {
        assert(x / 0x1000000 < 256) by (nonlinear_arith)
            requires 0 <= x < 0x100000000;
        assert(x / 0x1000000 >= 0) by (nonlinear_arith)
            requires x >= 0;
    }
}

} // verus!
