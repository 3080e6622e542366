//! Deterministic payload generation.
//!
//! Test payloads are produced by a fixed linear formula so that every run, on
//! every machine, sees byte-identical input data: byte `i` of the payload with
//! seed pair `(a, b)` is `(i*a + b) mod 256`.

use vstd::arithmetic::mul::lemma_mul_upper_bound;
use vstd::prelude::*;

verus! {

/// Byte `i` of the deterministic payload with seed pair `(a, b)`.
pub open spec fn payload_byte(i: int, a: u8, b: u8) -> u8 {
    ((i * a + b) % 256) as u8
}

/// The whole deterministic payload of length `len` with seed pair `(a, b)`.
pub open spec fn payload_seq(len: nat, a: u8, b: u8) -> Seq<u8> {
    Seq::new(len, |i: int| payload_byte(i, a, b))
}

/// Produces the deterministic payload: byte `i` is `(i*a + b) mod 256`,
/// computed with wide intermediates so no index can overflow.
pub fn generate_data(len: usize, a: u8, b: u8) -> (r: Vec<u8>)
    ensures
        r@ == payload_seq(len as nat, a, b),
{
    let mut out: Vec<u8> = Vec::new();
    let mut i: usize = 0;
    while i < len
        invariant
            i <= len,
            out@.len() == i,
            forall|j: int| 0 <= j < i ==> out@[j] == payload_byte(j, a, b),
        decreases len - i,
    {
        proof {
            lemma_mul_upper_bound(i as int, u64::MAX as int, a as int, 255);
        }
        let v: u8 = ((i as u128 * a as u128 + b as u128) % 256) as u8;
        assert(v == payload_byte(i as int, a, b));
        out.push(v);
        i = i + 1;
    }
    proof {
        assert(out@ =~= payload_seq(len as nat, a, b));
    }
    out
}

/// Determinism: the payload is a function of its length and seed pair alone,
/// so two generations from the same parameters are byte-identical.
pub proof fn lemma_payload_deterministic(s1: Seq<u8>, s2: Seq<u8>, len: nat, a: u8, b: u8)
    requires
        s1 == payload_seq(len, a, b),
        s2 == payload_seq(len, a, b),
    ensures
        s1 == s2,
{
}

} // verus!
