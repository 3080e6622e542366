//! The benchmark methodology: warmup, timed trials, median-of-samples.
//!
//! A measured operation is run `warmup` untimed repetitions first, then
//! `trials` timed repetitions; the reported figure is the median of the
//! recorded durations. The median is the middle element of the ascending
//! sort, which is well defined here because the trial counts are odd.

use crate::codec::{decode_result_of, oti_bytes_of, oti_wf, single_block_fit, RqEncoder};
use crate::fixture::is_first_report;
use crate::strategy::Strategy;
use crate::wire::be16_value;
use vstd::multiset::Multiset;
use vstd::prelude::*;
use vstd::relations::{sorted_by, total_ordering};
use vstd::seq_lib::lemma_sorted_unique;

verus! {

/// Ascending order on sample durations.
pub open spec fn le_ord() -> spec_fn(u128, u128) -> bool {
    |x: u128, y: u128| x <= y
}

/// `<=` on `u128` orders the samples totally.
pub proof fn lemma_le_ord_total()
    ensures
        total_ordering(le_ord()),
{
    assert(vstd::relations::reflexive(le_ord()));
    assert(vstd::relations::antisymmetric(le_ord()));
    assert(vstd::relations::transitive(le_ord()));
    assert(vstd::relations::strongly_connected(le_ord()));
}

/// The median of a sample sequence: the middle element of its ascending sort.
pub open spec fn median_of(s: Seq<u128>) -> u128
    recommends
        s.len() >= 1,
{
    s.sort_by(le_ord())[s.len() as int / 2]
}

/// Inserting an element anywhere in a sequence adds exactly that element to
/// its multiset.
proof fn lemma_insert_multiset(s: Seq<u128>, i: int, x: u128)
    requires
        0 <= i <= s.len(),
    ensures
        s.insert(i, x).to_multiset() =~= s.to_multiset().insert(x),
{
    broadcast use vstd::seq_lib::group_to_multiset_ensures;

    let t = s.insert(i, x);
    s.insert_ensures(i, x);
    assert(t.remove(i) =~= s);
    assert(t[i] == x);
    assert(t.remove(i).to_multiset() =~= t.to_multiset().remove(x));
    assert(t.to_multiset().contains(x));
    assert forall|a: u128| t.to_multiset().count(a) == s.to_multiset().insert(x).count(
        a,
    ) by {
        if a == x {
            assert(t.to_multiset().count(x) >= 1);
            assert(s.to_multiset().count(x) == t.to_multiset().remove(x).count(x));
        } else {
            assert(s.to_multiset().count(a) == t.to_multiset().remove(x).count(a));
        }
    }
}

/// The position at which `x` enters a sorted vector: everything before it is
/// at most `x`, everything from it on is greater.
fn insert_position(sorted: &Vec<u128>, x: u128) -> (pos: usize)
    requires
        sorted_by(sorted@, le_ord()),
    ensures
        pos <= sorted@.len(),
        forall|j: int| 0 <= j < pos ==> sorted@[j] <= x,
        forall|j: int| pos <= j < sorted@.len() ==> x < sorted@[j],
{
    let mut pos: usize = 0;
    while pos < sorted.len() && sorted[pos] <= x
        invariant
            pos <= sorted@.len(),
            sorted_by(sorted@, le_ord()),
            forall|j: int| 0 <= j < pos ==> sorted@[j] <= x,
        decreases sorted@.len() - pos,
    {
        pos = pos + 1;
    }
    proof {
        if pos < sorted@.len() {
            assert forall|j: int| pos <= j < sorted@.len() implies x < sorted@[j] by {
                if pos < j {
                    assert(le_ord()(sorted@[pos as int], sorted@[j]));
                }
            }
        }
    }
    pos
}

/// Sorts the samples ascending (insertion sort): afterwards the vector is a
/// sorted permutation of what it held before — which is exactly its unique
/// ascending sort.
pub fn sort_samples(samples: &mut Vec<u128>)
    ensures
        final(samples)@ == old(samples)@.sort_by(le_ord()),
        sorted_by(final(samples)@, le_ord()),
        final(samples)@.to_multiset() == old(samples)@.to_multiset(),
{
    let ghost input = samples@;
    let mut sorted: Vec<u128> = Vec::new();
    let mut i: usize = 0;
    proof {
        broadcast use vstd::seq_lib::group_to_multiset_ensures;

        assert(input.take(0).to_multiset() =~= Multiset::empty());
        assert(sorted@.to_multiset() =~= Multiset::empty());
    }
    while i < samples.len()
        invariant
            i <= samples@.len(),
            samples@ == input,
            sorted_by(sorted@, le_ord()),
            sorted@.to_multiset() == input.take(i as int).to_multiset(),
        decreases samples@.len() - i,
    {
        let x = samples[i];
        let pos = insert_position(&sorted, x);
        let ghost before = sorted@;
        sorted.insert(pos, x);
        proof {
            broadcast use vstd::seq_lib::group_to_multiset_ensures;

            before.insert_ensures(pos as int, x);
            lemma_insert_multiset(before, pos as int, x);
            assert(input.take(i + 1) =~= input.take(i as int).push(input[i as int]));
            assert(input.take(i + 1).to_multiset() =~= input.take(
                i as int,
            ).to_multiset().insert(x));
            assert forall|a: int, b: int| 0 <= a < b < sorted@.len() implies le_ord()(
                sorted@[a],
                sorted@[b],
            ) by {
                assert(sorted@[a] == if a < pos {
                    before[a]
                } else if a == pos {
                    x
                } else {
                    before[a - 1]
                });
                assert(sorted@[b] == if b < pos {
                    before[b]
                } else if b == pos {
                    x
                } else {
                    before[b - 1]
                });
            }
        }
        i = i + 1;
    }
    proof {
        assert(input.take(input.len() as int) =~= input);
    }
    *samples = sorted;
    proof {
        lemma_le_ord_total();
        input.lemma_sort_by_ensures(le_ord());
        lemma_sorted_unique(samples@, input.sort_by(le_ord()), le_ord());
    }
}

/// Sorts the samples in place and returns their median: the middle element
/// of the ascending sort (the trial counts used here are odd).
pub fn median(samples: &mut Vec<u128>) -> (r: u128)
    requires
        old(samples)@.len() >= 1,
    ensures
        r == median_of(old(samples)@),
        final(samples)@ == old(samples)@.sort_by(le_ord()),
{
    let ghost input = samples@;
    sort_samples(samples);
    proof {
        broadcast use vstd::seq_lib::group_to_multiset_ensures;

        assert(samples@.len() == samples@.to_multiset().len());
        assert(input.len() == input.to_multiset().len());
    }
    let mid = samples.len() / 2;
    samples[mid]
}

/// The median depends only on which samples were collected, not on the order
/// they arrived in: permuted sample vectors report the same median.
pub proof fn lemma_median_permutation(s1: Seq<u128>, s2: Seq<u128>)
    requires
        s1.len() >= 1,
        s1.to_multiset() == s2.to_multiset(),
    ensures
        median_of(s1) == median_of(s2),
{
    lemma_le_ord_total();
    s1.lemma_sort_by_ensures(le_ord());
    s2.lemma_sort_by_ensures(le_ord());
    broadcast use vstd::seq_lib::group_to_multiset_ensures;

    assert(s1.len() == s1.to_multiset().len());
    assert(s2.len() == s2.to_multiset().len());
    assert(s1.sort_by(le_ord()).len() == s1.sort_by(le_ord()).to_multiset().len());
    assert(s2.sort_by(le_ord()).len() == s2.sort_by(le_ord()).to_multiset().len());
    lemma_sorted_unique(s1.sort_by(le_ord()), s2.sort_by(le_ord()), le_ord());
}

/// A decode trial reconstructed the wrong number of bytes: a fatal
/// correctness failure of the codec or of the packet selection, never
/// recoverable.
pub struct LengthMismatch {
    pub expected: usize,
    pub actual: usize,
}

/// Times the full encode pipeline: `warmup` untimed runs, then `trials`
/// timed runs, each building a fresh encoder and materializing the source
/// packets and `max(k/10, 1)` repair packets (packet materialization is what
/// triggers the codec's constraint solve, so it must sit inside the timed
/// region); reports the median of the recorded durations.
pub fn bench_encode(data: &Vec<u8>, mtu: u16, warmup: usize, trials: usize) -> (r: u128)
    requires
        single_block_fit(data@.len(), mtu),
        1 <= trials,
    ensures
        exists|s: Seq<u128>| s.len() == trials && r == median_of(s),
{
    let mut w: usize = 0;
    while w < warmup
        invariant
            single_block_fit(data@.len(), mtu),
        decreases warmup - w,
    {
        let enc = RqEncoder::new(data, mtu);
        let _src = enc.source_packets();
        w = w + 1;
    }
    let mut samples: Vec<u128> = Vec::new();
    let mut t: usize = 0;
    while t < trials
        invariant
            single_block_fit(data@.len(), mtu),
            t <= trials,
            samples@.len() == t,
        decreases trials - t,
    {
        let start = crate::clock::now();
        let enc = RqEncoder::new(data, mtu);
        let src = enc.source_packets();
        let k = src.len();
        let rc: u32 = if k / 10 >= 1 {
            (k / 10) as u32
        } else {
            1
        };
        let _rep = enc.repair_packets(0, rc);
        let d = crate::clock::elapsed(&start);
        samples.push(crate::clock::duration_nanos(&d));
        t = t + 1;
    }
    let ghost collected = samples@;
    let med = median(&mut samples);
    proof {
        assert(collected.len() == trials && med == median_of(collected));
    }
    med
}

/// The packet set the decode benchmark feeds: the loss-replace selection at
/// ten percent loss (the last tenth of the source packets dropped, at least
/// one) compensated by `drop_count + 2` repair packets.
pub open spec fn decode_bench_packets(data: Seq<u8>, mtu: u16) -> Seq<Seq<u8>> {
    crate::fixture::selected_packets_of(
        data,
        mtu,
        Strategy::LossReplace { loss_pct: 10, overhead: 2 },
    )
}

/// The decode benchmark's correctness condition: whenever the codec reports
/// a reconstruction on the shortest sufficient prefix of the benchmark
/// packet set, that reconstruction has exactly the source length.
pub open spec fn bench_reconstruction_ok(data: Seq<u8>, mtu: u16) -> bool {
    forall|n: int|
        #[trigger] is_first_report(
            oti_bytes_of(data.len(), mtu),
            decode_bench_packets(data, mtu),
            n,
        ) ==> (decode_result_of(
            oti_bytes_of(data.len(), mtu),
            decode_bench_packets(data, mtu).take(n),
        ) matches Some(v) && v.len() == data.len())
}

/// Times decode: packet construction (encode plus the ten-percent
/// loss-replace selection, `decode_bench_packets`) happens once before any
/// timing; each trial then builds a fresh decoder and feeds it the kept
/// source packets followed by the repair packets, stopping at the first
/// reconstruction. A reconstruction of the wrong length aborts the run:
/// `Ok` says every reconstruction the trials could observe — the one on the
/// shortest sufficient prefix of that packet set — has the source length,
/// and `Err` is returned only when the codec actually reported one whose
/// length differs. On success, reports the median of the trial durations.
pub fn bench_decode(data: &Vec<u8>, mtu: u16, warmup: usize, trials: usize) -> (r: Result<
    u128,
    LengthMismatch,
>)
    requires
        single_block_fit(data@.len(), mtu),
        1 <= trials,
    ensures
        (r matches Ok(med) ==> exists|s: Seq<u128>| s.len() == trials && med == median_of(s)),
        (r is Ok ==> bench_reconstruction_ok(data@, mtu)),
        (r matches Err(e) ==> e.expected == data@.len() && e.actual != e.expected && exists|
            n: int,
        |
            1 <= n <= decode_bench_packets(data@, mtu).len() && (#[trigger] decode_result_of(
                oti_bytes_of(data@.len(), mtu),
                decode_bench_packets(data@, mtu).take(n),
            ) matches Some(v) && v.len() == e.actual)),
{
    let strategy = Strategy::LossReplace { loss_pct: 10, overhead: 2 };
    let (oti, packets) = crate::fixture::select_packets(data, mtu, strategy);
    let expected = data.len();
    let mut w: usize = 0;
    while w < warmup
        invariant
            oti_wf(oti@),
            be16_value(oti@[6], oti@[7]) == mtu,
            oti@[8] == 1,
            forall|m: int|
                0 <= m < packets@.len() ==> (#[trigger] packets@[m])@.len() == 4 + mtu
                    && packets@[m]@[0] == 0,
        decreases warmup - w,
    {
        let _ = crate::fixture::try_decode(&oti, &packets);
        w = w + 1;
    }
    let mut samples: Vec<u128> = Vec::new();
    let mut t: usize = 0;
    while t < trials
        invariant
            t <= trials,
            samples@.len() == t,
            expected == data@.len(),
            oti_wf(oti@),
            oti@ == oti_bytes_of(data@.len(), mtu),
            be16_value(oti@[6], oti@[7]) == mtu,
            oti@[8] == 1,
            crate::fixture::views(packets@) == decode_bench_packets(data@, mtu),
            forall|m: int|
                0 <= m < packets@.len() ==> (#[trigger] packets@[m])@.len() == 4 + mtu
                    && packets@[m]@[0] == 0,
            1 <= t ==> bench_reconstruction_ok(data@, mtu),
        decreases trials - t,
    {
        let start = crate::clock::now();
        let result = crate::fixture::try_decode(&oti, &packets);
        let d = crate::clock::elapsed(&start);
        let ghost o = oti@;
        let ghost pv = crate::fixture::views(packets@);
        match result {
            Some(reconstructed) => {
                proof {
                    let n0 = choose|n: int|
                        is_first_report(o, pv, n) && decode_result_of(o, pv.take(n)) == Some(
                            reconstructed@,
                        );
                    assert(is_first_report(o, pv, n0));
                    assert forall|n: int|
                        is_first_report(
                            oti_bytes_of(data@.len(), mtu),
                            decode_bench_packets(data@, mtu),
                            n,
                        ) implies (decode_result_of(
                        oti_bytes_of(data@.len(), mtu),
                        decode_bench_packets(data@, mtu).take(n),
                    ) matches Some(v) && v.len() == reconstructed@.len()) by {
                        crate::fixture::lemma_first_report_unique(o, pv, n, n0);
                    }
                }
                if reconstructed.len() != expected {
                    return Err(
                        LengthMismatch { expected, actual: reconstructed.len() },
                    );
                }
                proof {
                    assert(bench_reconstruction_ok(data@, mtu));
                }
            },
            None => {
                proof {
                    assert forall|n: int|
                        is_first_report(
                            oti_bytes_of(data@.len(), mtu),
                            decode_bench_packets(data@, mtu),
                            n,
                        ) implies (decode_result_of(
                        oti_bytes_of(data@.len(), mtu),
                        decode_bench_packets(data@, mtu).take(n),
                    ) matches Some(v) && v.len() == data@.len()) by {
                        assert(decode_result_of(o, pv.take(n)) is None);
                    }
                    assert(bench_reconstruction_ok(data@, mtu));
                }
            },
        }
        samples.push(crate::clock::duration_nanos(&d));
        t = t + 1;
    }
    let ghost collected = samples@;
    let med = median(&mut samples);
    proof {
        assert(collected.len() == trials && med == median_of(collected));
    }
    Ok(med)
}

/// The calibrated trial counts: payloads of a mebibyte and up get one warmup
/// round and five timed trials; smaller payloads get three and eleven.
pub fn calibration(data_size: usize) -> (r: (usize, usize))
    ensures
        data_size >= 0x100000 ==> r == (1usize, 5usize),
        data_size < 0x100000 ==> r == (3usize, 11usize),
        r.1 % 2 == 1,
        1 <= r.1,
{
    if data_size >= 0x100000 {
        (1, 5)
    } else {
        (3, 11)
    }
}

} // verus!
