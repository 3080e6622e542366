//! Tests that run the real codec: fixture generation, round-trip
//! reconstruction, and the benchmark drivers.

use rq_harness::bench::{bench_decode, bench_encode};
use rq_harness::codec::encoding_fits;
use rq_harness::fixture::{
    build_fixture, case_ok, select_case_packets, try_decode, vector_cases, VectorCase,
};
use rq_harness::payload::generate_data;

fn case(name: &str) -> VectorCase {
    let cases = vector_cases();
    for c in cases {
        if c.name == name {
            return c;
        }
    }
    panic!("no case named {name}");
}

fn be32_at(image: &[u8], offset: usize) -> u32 {
    u32::from_be_bytes([
        image[offset],
        image[offset + 1],
        image[offset + 2],
        image[offset + 3],
    ])
}

#[test]
fn all_cases_well_formed() {
    for c in vector_cases() {
        assert!(case_ok(&c), "{} not well formed", c.name);
    }
    assert!(!case_ok(&VectorCase { symbol_size: 0, ..case("v01_small_source_only") }));
    assert!(!case_ok(&VectorCase {
        strategy: rq_harness::strategy::Strategy::LossReplace { loss_pct: 101, overhead: 2 },
        ..case("v04_loss_10pct")
    }));
}

#[test]
fn encoding_fits_bounds() {
    assert!(encoding_fits(64, 16));
    assert!(encoding_fits(10485760, 4096));
    assert!(!encoding_fits(0, 16));
    assert!(!encoding_fits(64, 0));
    assert!(!encoding_fits(100, 65)); // 65 >= 64 and not a multiple of 8
}

#[test]
fn fixture_is_deterministic() {
    let c = case("v04_loss_10pct");
    let first = build_fixture(&c);
    let second = build_fixture(&c);
    assert_eq!(first, second);
}

#[test]
fn fixture_size_and_header_fields() {
    for c in vector_cases() {
        let image = build_fixture(&c);
        let f = c.data_len as usize;
        let t = c.symbol_size as usize;
        assert_eq!(&image[0..4], b"RQ01");
        assert_eq!(be32_at(&image, 16) as usize, f);
        let count = be32_at(&image, 20 + f) as usize;
        assert_eq!(image.len(), 4 + 12 + 4 + f + 4 + count * (4 + t), "{}", c.name);
        assert_eq!(&image[20..20 + f], &generate_data(f, c.seed_a, c.seed_b)[..]);
    }
}

#[test]
fn source_packets_carry_the_payload() {
    // v01 is source-only with K = 4 symbols of 16 bytes: each packet is the
    // 4-byte payload id (block 0, ascending symbol ids) plus one data chunk.
    let c = case("v01_small_source_only");
    let (oti, packets) = select_case_packets(&c);
    assert_eq!(oti.len(), 12);
    assert_eq!(oti[8], 1); // one source block
    assert_eq!(u16::from_be_bytes([oti[6], oti[7]]), 16); // symbol size
    assert_eq!(be32_at(&oti, 0) as u32, 0); // high transfer-length bytes
    assert_eq!(oti[4], 64); // transfer length
    let data = generate_data(64, 7, 13);
    assert_eq!(packets.len(), 4);
    for (i, pkt) in packets.iter().enumerate() {
        assert_eq!(pkt.len(), 20);
        assert_eq!(&pkt[0..4], &[0, 0, 0, i as u8]);
        assert_eq!(&pkt[4..20], &data[i * 16..(i + 1) * 16]);
    }
}

#[test]
fn packet_counts_per_strategy() {
    // K = ceil(F/T) for these single-block cases.
    let expect = [
        ("v01_small_source_only", 4usize),  // K=4 source only
        ("v02_medium_with_repair", 37),     // K=32 + 5 repair
        ("v03_large_symbol", 21),           // K=16 + 5 repair
        ("v04_loss_10pct", 18),             // K=16, drop 1, keep 15 + 3 repair
        ("v05_loss_50pct", 18),             // K=16, drop 8, keep 8 + 10 repair
        ("v06_padding_uneven", 10),         // K=4 + 6 repair
        ("v07_minimum_k", 10),              // K=1 + 9 repair
        ("v08_repair_only", 10),            // 10 repair, no source
    ];
    for (name, count) in expect {
        let (_, packets) = select_case_packets(&case(name));
        assert_eq!(packets.len(), count, "{name}");
    }
}

#[test]
fn roundtrip_loss_10pct() {
    let c = case("v04_loss_10pct");
    let (oti, packets) = select_case_packets(&c);
    let data = generate_data(c.data_len as usize, c.seed_a, c.seed_b);
    assert_eq!(try_decode(&oti, &packets), Some(data));
}

#[test]
fn roundtrip_loss_50pct() {
    let c = case("v05_loss_50pct");
    let (oti, packets) = select_case_packets(&c);
    let data = generate_data(c.data_len as usize, c.seed_a, c.seed_b);
    assert_eq!(try_decode(&oti, &packets), Some(data));
}

#[test]
fn roundtrip_repair_only() {
    let c = case("v08_repair_only");
    let (oti, packets) = select_case_packets(&c);
    let data = generate_data(c.data_len as usize, c.seed_a, c.seed_b);
    assert_eq!(try_decode(&oti, &packets), Some(data));
}

#[test]
fn roundtrip_minimum_k() {
    // data_len 16 with symbol size 16 gives K = 1, the smallest block; with
    // its source packet and 9 repair packets the fixture must decode.
    let c = case("v07_minimum_k");
    let (oti, packets) = select_case_packets(&c);
    let data = generate_data(c.data_len as usize, c.seed_a, c.seed_b);
    assert_eq!(try_decode(&oti, &packets), Some(data));
}

#[test]
fn decode_needs_enough_packets() {
    // All but one source packet of a source-only case: reconstruction must
    // not be reported.
    let c = case("v01_small_source_only");
    let (oti, mut packets) = select_case_packets(&c);
    packets.pop();
    assert_eq!(try_decode(&oti, &packets), None);
}

#[test]
fn bench_encode_runs() {
    let data = generate_data(256, 31, 17);
    let _median_ns = bench_encode(&data, 64, 1, 3);
}

#[test]
fn bench_decode_reconstructs() {
    let data = generate_data(1024, 31, 17);
    let result = bench_decode(&data, 64, 1, 3);
    assert!(result.is_ok());
}
