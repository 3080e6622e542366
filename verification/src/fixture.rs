//! RQ01 fixture images.
//!
//! A fixture is one self-contained interop test vector: the ASCII magic
//! `RQ01`, the 12 transmission-parameter bytes, the source data behind a
//! 4-byte big-endian length, and the selected packets behind a 4-byte
//! big-endian count. The whole image is a pure function of the test case's
//! parameters, so regenerating a case always yields byte-identical files.

use crate::codec::{
    decode_result_of, oti_bytes_of, oti_wf, repair_packets_of, single_block_fit,
    source_packets_of, RqDecoder, RqEncoder, MAX_BLOCK_SYMBOLS,
};
use crate::payload::{generate_data, payload_seq};
use crate::strategy::{evaluate, repair_count, spec_kept_source, spec_repair_count, Strategy};
use crate::wire::{be16_value, be32, be32_bytes, be32_value, lemma_be32_roundtrip};
use vstd::arithmetic::mul::{lemma_mul_is_distributive_add, lemma_mul_is_commutative};
use vstd::prelude::*;

verus! {

/// The ASCII magic `RQ01` that opens every fixture.
pub open spec fn magic_bytes() -> Seq<u8> {
    seq![0x52u8, 0x51u8, 0x30u8, 0x31u8]
}

/// The byte sequences a sequence of packet vectors holds.
pub open spec fn views(ps: Seq<Vec<u8>>) -> Seq<Seq<u8>> {
    ps.map_values(|p: Vec<u8>| p@)
}

/// The complete fixture image for the given transmission-parameter bytes,
/// source data and packet set.
pub open spec fn fixture_bytes_spec(oti: Seq<u8>, data: Seq<u8>, packets: Seq<Seq<u8>>) -> Seq<
    u8,
> {
    magic_bytes() + oti + be32_bytes(data.len() as int) + data + be32_bytes(
        packets.len() as int,
    ) + packets.flatten()
}

/// Appends all of `src` to `dst`.
fn append_bytes(dst: &mut Vec<u8>, src: &Vec<u8>)
    ensures
        final(dst)@ == old(dst)@ + src@,
{
    let ghost orig = dst@;
    proof {
        assert(dst@ =~= orig + src@.take(0));
    }
    let mut i: usize = 0;
    while i < src.len()
        invariant
            i <= src@.len(),
            dst@ == orig + src@.take(i as int),
        decreases src@.len() - i,
    {
        dst.push(src[i]);
        proof {
            assert(dst@ =~= orig + src@.take(i + 1));
        }
        i = i + 1;
    }
    proof {
        assert(orig + src@.take(src@.len() as int) =~= orig + src@);
    }
}

/// Serializes a fixture: magic, parameter bytes, length-prefixed source
/// data, count-prefixed packets, exactly in that order.
pub fn fixture_bytes(oti: &Vec<u8>, data: &Vec<u8>, packets: &Vec<Vec<u8>>) -> (r: Vec<u8>)
    requires
        oti@.len() == 12,
        data@.len() <= u32::MAX,
        packets@.len() <= u32::MAX,
    ensures
        r@ == fixture_bytes_spec(oti@, data@, views(packets@)),
{
    broadcast use Seq::group_seq_flatten;

    let mut out: Vec<u8> = Vec::new();
    out.push(0x52);
    out.push(0x51);
    out.push(0x30);
    out.push(0x31);
    proof {
        assert(out@ =~= magic_bytes());
    }
    append_bytes(&mut out, oti);
    let len_field = be32(data.len() as u32);
    append_bytes(&mut out, &len_field);
    append_bytes(&mut out, data);
    let count_field = be32(packets.len() as u32);
    append_bytes(&mut out, &count_field);
    let ghost header = magic_bytes() + oti@ + be32_bytes(data@.len() as int) + data@
        + be32_bytes(packets@.len() as int);
    proof {
        assert(out@ =~= header);
        assert(views(packets@.take(0)) =~= Seq::<Seq<u8>>::empty());
        assert(Seq::<Seq<u8>>::empty().flatten() =~= Seq::<u8>::empty());
        assert(out@ =~= header + views(packets@.take(0)).flatten());
    }
    let mut i: usize = 0;
    while i < packets.len()
        invariant
            i <= packets@.len(),
            out@ == header + views(packets@.take(i as int)).flatten(),
        decreases packets@.len() - i,
    {
        append_bytes(&mut out, &packets[i]);
        proof {
            assert(views(packets@.take(i + 1)) =~= views(packets@.take(i as int)).push(
                packets@[i as int]@,
            ));
            views(packets@.take(i as int)).lemma_flatten_push(packets@[i as int]@);
            assert(out@ =~= header + views(packets@.take(i + 1)).flatten());
        }
        i = i + 1;
    }
    proof {
        assert(packets@.take(packets@.len() as int) =~= packets@);
        assert(out@ =~= fixture_bytes_spec(oti@, data@, views(packets@)));
    }
    out
}

/// When every packet is `4 + t` bytes (a payload id plus one symbol), their
/// concatenation is `count * (4 + t)` bytes long.
proof fn lemma_flatten_uniform_len(packets: Seq<Seq<u8>>, t: int)
    requires
        t >= 0,
        forall|i: int| 0 <= i < packets.len() ==> (#[trigger] packets[i]).len() == 4 + t,
    ensures
        packets.flatten().len() == packets.len() * (4 + t),
    decreases packets.len(),
{
    broadcast use Seq::group_seq_flatten;

    if packets.len() == 0 {
        assert(packets.flatten() =~= Seq::<u8>::empty());
    } else {
        let prefix = packets.drop_last();
        lemma_flatten_uniform_len(prefix, t);
        assert(packets =~= prefix.push(packets.last()));
        assert(packets.flatten() == prefix.flatten() + packets.last());
        lemma_mul_is_distributive_add(4 + t, prefix.len() as int, 1);
        lemma_mul_is_commutative(4 + t, prefix.len() as int);
        lemma_mul_is_commutative(4 + t, packets.len() as int);
        lemma_mul_is_commutative(4 + t, prefix.len() + 1 as int);
    }
}

/// Header and size integrity: a fixture whose packets each hold one `t`-byte
/// symbol is exactly `4 + 12 + 4 + F + 4 + count*(4+t)` bytes, and the two
/// big-endian header fields decode back to the source length and to the
/// number of packet records present.
pub proof fn lemma_fixture_layout(oti: Seq<u8>, data: Seq<u8>, packets: Seq<Seq<u8>>, t: int)
    requires
        oti.len() == 12,
        t >= 0,
        data.len() < 0x100000000,
        packets.len() < 0x100000000,
        forall|i: int| 0 <= i < packets.len() ==> (#[trigger] packets[i]).len() == 4 + t,
    ensures
        fixture_bytes_spec(oti, data, packets).len() == 4 + 12 + 4 + data.len() + 4
            + packets.len() * (4 + t),
        be32_value(fixture_bytes_spec(oti, data, packets).subrange(16, 20)) == data.len(),
        be32_value(
            fixture_bytes_spec(oti, data, packets).subrange(
                20 + data.len() as int,
                24 + data.len() as int,
            ),
        ) == packets.len(),
{
    let image = fixture_bytes_spec(oti, data, packets);
    lemma_flatten_uniform_len(packets, t);
    assert(image.subrange(16, 20) =~= be32_bytes(data.len() as int));
    assert(image.subrange(20 + data.len() as int, 24 + data.len() as int) =~= be32_bytes(
        packets.len() as int,
    ));
    lemma_be32_roundtrip(data.len() as int);
    lemma_be32_roundtrip(packets.len() as int);
}

/// One named interop test case: a deterministic payload, a symbol size, and
/// the strategy that picks its packet set.
pub struct VectorCase {
    /// The case's name, which also names the fixture file.
    pub name: &'static str,
    /// Source payload length in bytes.
    pub data_len: u32,
    /// Multiplier seed of the payload formula.
    pub seed_a: u8,
    /// Offset seed of the payload formula.
    pub seed_b: u8,
    /// Symbol size handed to the codec.
    pub symbol_size: u16,
    /// How the packet set is selected.
    pub strategy: Strategy,
}

/// Strategy parameters the wrappers' ranges admit: percentages are
/// percentages, and repair counts stay well inside the 24-bit symbol-id
/// space.
pub open spec fn strategy_wf(s: Strategy) -> bool {
    match s {
        Strategy::SourceOnly => true,
        Strategy::SourcePlusRepair { repair } => repair <= 0xFFFF,
        Strategy::LossReplace { loss_pct, overhead } => loss_pct <= 100 && overhead <= 0xFFFF,
        Strategy::RepairOnly { repair } => repair <= 0xFFFF,
    }
}

impl VectorCase {
    /// A case the codec accepts: data fits one source block and the strategy
    /// parameters are in range.
    pub open spec fn wf(self) -> bool {
        &&& single_block_fit(self.data_len as nat, self.symbol_size)
        &&& strategy_wf(self.strategy)
    }
}

/// The packet set a case selects, as a function of the case alone: the
/// strategy's kept source packets, then the repair packets it requests.
pub open spec fn selected_packets_of(data: Seq<u8>, mtu: u16, s: Strategy) -> Seq<Seq<u8>> {
    let src = source_packets_of(data, mtu);
    spec_kept_source(s, src) + repair_packets_of(
        data,
        mtu,
        0,
        spec_repair_count(s, src.len()) as u32,
    )
}

/// The entire fixture image of a case — a function of the case alone.
pub open spec fn fixture_of(c: VectorCase) -> Seq<u8> {
    let data = payload_seq(c.data_len as nat, c.seed_a, c.seed_b);
    fixture_bytes_spec(
        oti_bytes_of(c.data_len as nat, c.symbol_size),
        data,
        selected_packets_of(data, c.symbol_size, c.strategy),
    )
}

/// Runs the codec on `data` and selects a packet set by strategy. Returns
/// the transmission-parameter bytes and the packets, each packet 4 header
/// bytes plus one symbol, all of the single source block.
pub fn select_packets(data: &Vec<u8>, mtu: u16, s: Strategy) -> (r: (Vec<u8>, Vec<Vec<u8>>))
    requires
        single_block_fit(data@.len(), mtu),
        strategy_wf(s),
    ensures
        r.0@ == oti_bytes_of(data@.len(), mtu),
        oti_wf(r.0@),
        be16_value(r.0@[6], r.0@[7]) == mtu,
        r.0@[8] == 1,
        views(r.1@) == selected_packets_of(data@, mtu, s),
        r.1@.len() <= MAX_BLOCK_SYMBOLS + 0xFFFF,
        forall|i: int|
            0 <= i < r.1@.len() ==> (#[trigger] r.1@[i])@.len() == 4 + mtu && r.1@[i]@[0] == 0,
{
    let enc = RqEncoder::new(data, mtu);
    let oti = enc.oti();
    proof {
        crate::codec::lemma_single_block_oti_wf(oti@, data@.len(), mtu);
    }
    let src = enc.source_packets();
    let k = src.len();
    proof {
        match s {
            Strategy::LossReplace { loss_pct, .. } => {
                crate::strategy::lemma_drop_count_clamped(k as nat, loss_pct);
            },
            _ => {},
        }
    }
    let rc = repair_count(s, k);
    let rep = enc.repair_packets(0, rc);
    let packets = evaluate(&src, &rep, s);
    proof {
        let ghost srcv = views(src@);
        let ghost repv = views(rep@);
        assert(views(packets@) == spec_kept_source(s, srcv) + repv);
        assert(spec_kept_source(s, srcv).len() <= srcv.len());
        assert forall|i: int| 0 <= i < packets@.len() implies (#[trigger] packets@[i])@.len()
            == 4 + mtu && packets@[i]@[0] == 0 by {
            let kept = spec_kept_source(s, srcv);
            assert(packets@[i]@ == views(packets@)[i]);
            if i < kept.len() {
                assert(views(packets@)[i] == kept[i]);
                match s {
                    Strategy::SourceOnly => assert(kept[i] == srcv[i]),
                    Strategy::SourcePlusRepair { .. } => assert(kept[i] == srcv[i]),
                    Strategy::LossReplace { .. } => assert(kept[i] == srcv[i]),
                    Strategy::RepairOnly { .. } => assert(false),
                }
                assert(srcv[i] == src@[i]@);
            } else {
                assert(views(packets@)[i] == repv[i - kept.len()]);
                assert(repv[i - kept.len()] == rep@[i - kept.len()]@);
            }
        }
    }
    (oti, packets)
}

/// Runs the codec for a named case: its deterministic payload, then the
/// case's packet selection.
pub fn select_case_packets(c: &VectorCase) -> (r: (Vec<u8>, Vec<Vec<u8>>))
    requires
        c.wf(),
    ensures
        r.0@ == oti_bytes_of(c.data_len as nat, c.symbol_size),
        oti_wf(r.0@),
        be16_value(r.0@[6], r.0@[7]) == c.symbol_size,
        r.0@[8] == 1,
        views(r.1@) == selected_packets_of(
            payload_seq(c.data_len as nat, c.seed_a, c.seed_b),
            c.symbol_size,
            c.strategy,
        ),
        r.1@.len() <= MAX_BLOCK_SYMBOLS + 0xFFFF,
        forall|i: int|
            0 <= i < r.1@.len() ==> (#[trigger] r.1@[i])@.len() == 4 + c.symbol_size
                && r.1@[i]@[0] == 0,
{
    let data = generate_data(c.data_len as usize, c.seed_a, c.seed_b);
    select_packets(&data, c.symbol_size, c.strategy)
}

/// The number of packets a case selects.
pub open spec fn packet_count_of(c: VectorCase) -> nat {
    selected_packets_of(
        payload_seq(c.data_len as nat, c.seed_a, c.seed_b),
        c.symbol_size,
        c.strategy,
    ).len()
}

/// Serializes the complete fixture image for a case: deterministic, so two
/// generations of the same case are byte-identical; and its size and header
/// fields obey the format — `4 + 12 + 4 + F + 4 + count*(4+T)` bytes in all,
/// with the source length and the packet count recoverable from their
/// big-endian fields.
pub fn build_fixture(c: &VectorCase) -> (r: Vec<u8>)
    requires
        c.wf(),
    ensures
        r@ == fixture_of(*c),
        r@.len() == 4 + 12 + 4 + c.data_len + 4 + packet_count_of(*c) * (4 + c.symbol_size),
        be32_value(r@.subrange(16, 20)) == c.data_len,
        be32_value(r@.subrange(20 + c.data_len as int, 24 + c.data_len as int))
            == packet_count_of(*c),
{
    let data = generate_data(c.data_len as usize, c.seed_a, c.seed_b);
    let (oti, packets) = select_case_packets(c);
    let image = fixture_bytes(&oti, &data, &packets);
    proof {
        assert forall|i: int| 0 <= i < views(packets@).len() implies (#[trigger] views(
            packets@,
        )[i]).len() == 4 + c.symbol_size by {
            assert(views(packets@)[i] == packets@[i]@);
        }
        lemma_fixture_layout(oti@, data@, views(packets@), c.symbol_size as int);
    }
    image
}

/// Determinism of the fixture protocol: a case pins its entire fixture
/// image, so any two images generated from the same case are byte-identical.
pub proof fn lemma_fixture_deterministic(b1: Seq<u8>, b2: Seq<u8>, c: VectorCase)
    requires
        b1 == fixture_of(c),
        b2 == fixture_of(c),
    ensures
        b1 == b2,
{
}

/// Whether a case is well formed, decided at run time, so unverified callers
/// can check before building.
pub fn case_ok(c: &VectorCase) -> (r: bool)
    ensures
        r == c.wf(),
{
    let fits = 1 <= c.data_len && 1 <= c.symbol_size && (c.symbol_size < 64 || c.symbol_size % 8
        == 0) && c.data_len as u64 <= MAX_BLOCK_SYMBOLS * c.symbol_size as u64;
    let strat = match c.strategy {
        Strategy::SourceOnly => true,
        Strategy::SourcePlusRepair { repair } => repair <= 0xFFFF,
        Strategy::LossReplace { loss_pct, overhead } => loss_pct <= 100 && overhead <= 0xFFFF,
        Strategy::RepairOnly { repair } => repair <= 0xFFFF,
    };
    fits && strat
}

/// The fixed interop case table, as specification data: the parameters that
/// every conforming generator must reproduce bit for bit.
pub open spec fn case_table() -> Seq<VectorCase> {
    seq![
        (VectorCase {
            name: "v01_small_source_only",
            data_len: 64,
            seed_a: 7,
            seed_b: 13,
            symbol_size: 16,
            strategy: Strategy::SourceOnly,
        }),
        (VectorCase {
            name: "v02_medium_with_repair",
            data_len: 1024,
            seed_a: 11,
            seed_b: 23,
            symbol_size: 32,
            strategy: Strategy::SourcePlusRepair { repair: 5 },
        }),
        (VectorCase {
            name: "v03_large_symbol",
            data_len: 4096,
            seed_a: 13,
            seed_b: 37,
            symbol_size: 256,
            strategy: Strategy::SourcePlusRepair { repair: 5 },
        }),
        (VectorCase {
            name: "v04_loss_10pct",
            data_len: 512,
            seed_a: 17,
            seed_b: 41,
            symbol_size: 32,
            strategy: Strategy::LossReplace { loss_pct: 10, overhead: 2 },
        }),
        (VectorCase {
            name: "v05_loss_50pct",
            data_len: 512,
            seed_a: 19,
            seed_b: 43,
            symbol_size: 32,
            strategy: Strategy::LossReplace { loss_pct: 50, overhead: 2 },
        }),
        (VectorCase {
            name: "v06_padding_uneven",
            data_len: 100,
            seed_a: 23,
            seed_b: 47,
            symbol_size: 32,
            strategy: Strategy::SourcePlusRepair { repair: 6 },
        }),
        (VectorCase {
            name: "v07_minimum_k",
            data_len: 16,
            seed_a: 29,
            seed_b: 53,
            symbol_size: 16,
            strategy: Strategy::SourcePlusRepair { repair: 9 },
        }),
        (VectorCase {
            name: "v08_repair_only",
            data_len: 128,
            seed_a: 31,
            seed_b: 59,
            symbol_size: 32,
            strategy: Strategy::RepairOnly { repair: 10 },
        }),
    ]
}

/// The fixed table of interop cases — exactly `case_table`, every entry well
/// formed.
pub fn vector_cases() -> (r: Vec<VectorCase>)
    ensures
        r@ == case_table(),
        r@.len() == 8,
        forall|i: int| 0 <= i < r@.len() ==> (#[trigger] r@[i]).wf(),
{
    let mut cases: Vec<VectorCase> = Vec::new();
    cases.push(
        VectorCase {
            name: "v01_small_source_only",
            data_len: 64,
            seed_a: 7,
            seed_b: 13,
            symbol_size: 16,
            strategy: Strategy::SourceOnly,
        },
    );
    cases.push(
        VectorCase {
            name: "v02_medium_with_repair",
            data_len: 1024,
            seed_a: 11,
            seed_b: 23,
            symbol_size: 32,
            strategy: Strategy::SourcePlusRepair { repair: 5 },
        },
    );
    cases.push(
        VectorCase {
            name: "v03_large_symbol",
            data_len: 4096,
            seed_a: 13,
            seed_b: 37,
            symbol_size: 256,
            strategy: Strategy::SourcePlusRepair { repair: 5 },
        },
    );
    cases.push(
        VectorCase {
            name: "v04_loss_10pct",
            data_len: 512,
            seed_a: 17,
            seed_b: 41,
            symbol_size: 32,
            strategy: Strategy::LossReplace { loss_pct: 10, overhead: 2 },
        },
    );
    cases.push(
        VectorCase {
            name: "v05_loss_50pct",
            data_len: 512,
            seed_a: 19,
            seed_b: 43,
            symbol_size: 32,
            strategy: Strategy::LossReplace { loss_pct: 50, overhead: 2 },
        },
    );
    cases.push(
        VectorCase {
            name: "v06_padding_uneven",
            data_len: 100,
            seed_a: 23,
            seed_b: 47,
            symbol_size: 32,
            strategy: Strategy::SourcePlusRepair { repair: 6 },
        },
    );
    cases.push(
        VectorCase {
            name: "v07_minimum_k",
            data_len: 16,
            seed_a: 29,
            seed_b: 53,
            symbol_size: 16,
            strategy: Strategy::SourcePlusRepair { repair: 9 },
        },
    );
    cases.push(
        VectorCase {
            name: "v08_repair_only",
            data_len: 128,
            seed_a: 31,
            seed_b: 59,
            symbol_size: 32,
            strategy: Strategy::RepairOnly { repair: 10 },
        },
    );
    proof {
        assert(cases@ =~= case_table());
    }
    cases
}

/// `n` is the length of the shortest packet prefix the codec reports a
/// reconstruction on: feeding the first `n` packets yields a report, feeding
/// any fewer does not.
pub open spec fn is_first_report(oti: Seq<u8>, packets: Seq<Seq<u8>>, n: int) -> bool {
    &&& 1 <= n <= packets.len()
    &&& decode_result_of(oti, packets.take(n)) is Some
    &&& forall|m: int| 1 <= m < n ==> #[trigger] decode_result_of(oti, packets.take(m)) is None
}

/// At most one prefix length is the first the codec reports on.
pub proof fn lemma_first_report_unique(oti: Seq<u8>, packets: Seq<Seq<u8>>, n1: int, n2: int)
    requires
        is_first_report(oti, packets, n1),
        is_first_report(oti, packets, n2),
    ensures
        n1 == n2,
{
    if n1 < n2 {
        assert(decode_result_of(oti, packets.take(n1)) is None);
    } else if n2 < n1 {
        assert(decode_result_of(oti, packets.take(n2)) is None);
    }
}

/// Feeds the packets to a fresh decoder in order and returns the first
/// reconstruction it reports, or `None` when no prefix of the packet set was
/// enough. Whether a set suffices is the codec's affair — fixtures probing
/// insufficient redundancy are legitimate — so the contract speaks through
/// the named decode result: the return is `Some` exactly on the shortest
/// prefix the codec reports on, and `None` when it reports on no prefix.
pub fn try_decode(oti: &Vec<u8>, packets: &Vec<Vec<u8>>) -> (r: Option<Vec<u8>>)
    requires
        oti_wf(oti@),
        forall|i: int|
            0 <= i < packets@.len() ==> (#[trigger] packets@[i])@.len() == 4 + be16_value(
                oti@[6],
                oti@[7],
            ) && packets@[i]@[0] < oti@[8],
    ensures
        (r matches Some(v) ==> exists|n: int|
            #[trigger] is_first_report(oti@, views(packets@), n) && decode_result_of(
                oti@,
                views(packets@).take(n),
            ) == Some(v@)),
        (r is None ==> forall|n: int|
            1 <= n <= packets@.len() ==> #[trigger] decode_result_of(
                oti@,
                views(packets@).take(n),
            ) is None),
{
    let mut dec = RqDecoder::new(oti);
    let mut i: usize = 0;
    while i < packets.len()
        invariant
            i <= packets@.len(),
            dec.spec_symbol_size() == be16_value(oti@[6], oti@[7]),
            dec.spec_blocks() == oti@[8],
            dec.spec_oti() == oti@,
            dec.spec_fed() == views(packets@).take(i as int),
            forall|j: int|
                0 <= j < packets@.len() ==> (#[trigger] packets@[j])@.len() == 4 + be16_value(
                    oti@[6],
                    oti@[7],
                ) && packets@[j]@[0] < oti@[8],
            forall|m: int|
                1 <= m <= i ==> #[trigger] decode_result_of(oti@, views(packets@).take(m))
                    is None,
        decreases packets@.len() - i,
    {
        let result = dec.submit(&packets[i]);
        proof {
            assert(views(packets@).take(i as int).push(packets@[i as int]@) =~= views(
                packets@,
            ).take(i + 1));
        }
        if result.is_some() {
            proof {
                assert(is_first_report(oti@, views(packets@), i + 1));
            }
            return result;
        }
        i = i + 1;
    }
    None
}

} // verus!
