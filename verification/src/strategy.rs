//! Packet-selection strategies.
//!
//! A fixture delivers a chosen subset of the packets the codec produced for
//! one source block: all of the source packets, source plus extra repair,
//! a lossy prefix of the source compensated by repair, or repair alone.
//! The selection never reorders: kept source packets come first, in the order
//! the codec produced them, then the repair packets in their order.

use vstd::arithmetic::div_mod::{lemma_div_is_ordered, lemma_div_multiples_vanish};
use vstd::arithmetic::mul::{lemma_mul_inequality, lemma_mul_upper_bound};
use vstd::prelude::*;

verus! {

/// How the packets of a fixture are chosen from the codec's output.
#[derive(Clone, Copy, PartialEq, Eq, Structural)]
pub enum Strategy {
    /// All source packets, no repair.
    SourceOnly,
    /// All source packets, then `repair` repair packets.
    SourcePlusRepair { repair: u32 },
    /// Drop the last `max(k*loss_pct/100, 1)` source packets and append
    /// `drop_count + overhead` repair packets in their place.
    LossReplace { loss_pct: u32, overhead: u32 },
    /// `repair` repair packets and no source packets at all.
    RepairOnly { repair: u32 },
}

/// How many of `k` source packets a lossy strategy drops: a `loss_pct`
/// fraction rounded down, but always at least one.
pub open spec fn spec_drop_count(k: nat, loss_pct: u32) -> nat {
    let d = (k * loss_pct / 100) as nat;
    if d < 1 {
        1
    } else {
        d
    }
}

/// How many repair packets a strategy asks the codec for, given `k` source
/// packets.
pub open spec fn spec_repair_count(s: Strategy, k: nat) -> nat {
    match s {
        Strategy::SourceOnly => 0,
        Strategy::SourcePlusRepair { repair } => repair as nat,
        Strategy::LossReplace { loss_pct, overhead } => (spec_drop_count(k, loss_pct)
            + overhead) as nat,
        Strategy::RepairOnly { repair } => repair as nat,
    }
}

/// The source packets a strategy keeps, in their original order.
pub open spec fn spec_kept_source(s: Strategy, src: Seq<Seq<u8>>) -> Seq<Seq<u8>> {
    match s {
        Strategy::SourceOnly => src,
        Strategy::SourcePlusRepair { .. } => src,
        Strategy::LossReplace { loss_pct, .. } => src.take(
            src.len() - spec_drop_count(src.len(), loss_pct),
        ),
        Strategy::RepairOnly { .. } => Seq::empty(),
    }
}

/// The number of source packets dropped under a `loss_pct` loss rate:
/// `floor(k*loss_pct/100)`, clamped to at least one so that a positive loss
/// rate on a small block still loses a packet.
pub fn drop_count(k: usize, loss_pct: u32) -> (r: usize)
    requires
        loss_pct <= 100,
        k >= 1,
    ensures
        r == spec_drop_count(k as nat, loss_pct),
        1 <= r <= k,
{
    proof {
        lemma_mul_upper_bound(k as int, u64::MAX as int, loss_pct as int, 100);
        lemma_drop_count_clamped(k as nat, loss_pct);
    }
    let d: u128 = k as u128 * loss_pct as u128 / 100;
    if d < 1 {
        1
    } else {
        d as usize
    }
}

/// How many repair packets to request for a strategy over `k` source packets.
pub fn repair_count(s: Strategy, k: usize) -> (r: u32)
    requires
        k >= 1,
        spec_repair_count(s, k as nat) <= u32::MAX,
        (s matches Strategy::LossReplace { loss_pct, .. } ==> loss_pct <= 100),
    ensures
        r == spec_repair_count(s, k as nat),
{
    match s {
        Strategy::SourceOnly => 0,
        Strategy::SourcePlusRepair { repair } => repair,
        Strategy::LossReplace { loss_pct, overhead } => {
            let d = drop_count(k, loss_pct);
            (d as u64 + overhead as u64) as u32
        },
        Strategy::RepairOnly { repair } => repair,
    }
}

/// Applies a strategy: the kept source packets in ascending order, then the
/// repair packets in the order the codec produced them. Neither input is
/// mutated.
pub fn evaluate(source: &Vec<Vec<u8>>, repair: &Vec<Vec<u8>>, s: Strategy) -> (r: Vec<Vec<u8>>)
    requires
        (s matches Strategy::LossReplace { loss_pct, .. } ==> loss_pct <= 100 && source@.len()
            >= 1),
        repair@.len() == spec_repair_count(s, source@.len()),
    ensures
        r@.map_values(|p: Vec<u8>| p@) == spec_kept_source(
            s,
            source@.map_values(|p: Vec<u8>| p@),
        ) + repair@.map_values(|p: Vec<u8>| p@),
{
    let keep: usize = match s {
        Strategy::SourceOnly => source.len(),
        Strategy::SourcePlusRepair { .. } => source.len(),
        Strategy::LossReplace { loss_pct, .. } => source.len() - drop_count(
            source.len(),
            loss_pct,
        ),
        Strategy::RepairOnly { .. } => 0,
    };
    let mut out: Vec<Vec<u8>> = Vec::new();
    let mut i: usize = 0;
    while i < keep
        invariant
            i <= keep <= source@.len(),
            out@.len() == i,
            forall|j: int| 0 <= j < i ==> out@[j]@ == source@[j]@,
        decreases keep - i,
    {
        out.push(vstd::slice::slice_to_vec(source[i].as_slice()));
        i = i + 1;
    }
    let mut j: usize = 0;
    while j < repair.len()
        invariant
            j <= repair@.len(),
            out@.len() == keep + j,
            keep <= source@.len(),
            forall|m: int| 0 <= m < keep ==> out@[m]@ == source@[m]@,
            forall|m: int| 0 <= m < j ==> out@[keep + m]@ == repair@[m]@,
        decreases repair@.len() - j,
    {
        out.push(vstd::slice::slice_to_vec(repair[j].as_slice()));
        j = j + 1;
    }
    proof {
        assert(out@.map_values(|p: Vec<u8>| p@) =~= spec_kept_source(
            s,
            source@.map_values(|p: Vec<u8>| p@),
        ) + repair@.map_values(|p: Vec<u8>| p@));
    }
    out
}

/// Loss clamping: a lossy strategy always drops at least one packet, and
/// never more than the whole block.
pub proof fn lemma_drop_count_clamped(k: nat, loss_pct: u32)
    requires
        k >= 1,
        loss_pct <= 100,
    ensures
        1 <= spec_drop_count(k, loss_pct) <= k,
{
    lemma_mul_inequality(loss_pct as int, 100, k as int);
    lemma_div_is_ordered(k as int * loss_pct as int, k as int * 100, 100);
    lemma_div_multiples_vanish(k as int, 100);
}

} // verus!
