//! Tests of the pure protocol pieces: payload generation, big-endian fields,
//! strategy selection, and the fixture image layout.

use rq_harness::bench::{calibration, median};
use rq_harness::fixture::{fixture_bytes, vector_cases};
use rq_harness::payload::generate_data;
use rq_harness::strategy::{drop_count, evaluate, Strategy};
use rq_harness::wire::be32;

#[test]
fn generate_is_deterministic() {
    let a = generate_data(1000, 7, 13);
    let b = generate_data(1000, 7, 13);
    assert_eq!(a, b);
}

#[test]
fn generate_matches_formula() {
    let data = generate_data(600, 7, 13);
    assert_eq!(data.len(), 600);
    for (i, &byte) in data.iter().enumerate() {
        assert_eq!(byte as u64, (i as u64 * 7 + 13) % 256);
    }
}

#[test]
fn generate_benchmark_seeds() {
    let data = generate_data(256, 31, 17);
    assert_eq!(data[0], 17);
    assert_eq!(data[1], 48);
    assert_eq!(data[255], ((255u64 * 31 + 17) % 256) as u8);
}

#[test]
fn generate_empty() {
    let data = generate_data(0, 7, 13);
    assert!(data.is_empty());
}

#[test]
fn median_fixed_sample() {
    let mut samples: Vec<u128> = vec![5, 1, 9, 3, 7];
    assert_eq!(median(&mut samples), 5);
    assert_eq!(samples, vec![1, 3, 5, 7, 9]);
}

#[test]
fn median_permutation_invariant() {
    let mut a: Vec<u128> = vec![4, 4, 2, 8, 100, 0, 7];
    let mut b: Vec<u128> = vec![100, 0, 4, 7, 8, 2, 4];
    assert_eq!(median(&mut a), median(&mut b));
}

#[test]
fn median_single_sample() {
    let mut samples: Vec<u128> = vec![42];
    assert_eq!(median(&mut samples), 42);
}

#[test]
fn calibration_thresholds() {
    assert_eq!(calibration(1048576), (1, 5));
    assert_eq!(calibration(10485760), (1, 5));
    assert_eq!(calibration(1048575), (3, 11));
    assert_eq!(calibration(256), (3, 11));
}

#[test]
fn drop_count_policy() {
    assert_eq!(drop_count(10, 10), 1);
    assert_eq!(drop_count(10, 50), 5);
}

#[test]
fn drop_count_clamps_to_one() {
    assert_eq!(drop_count(3, 10), 1);
    assert_eq!(drop_count(10, 0), 1);
    assert_eq!(drop_count(1, 100), 1);
}

fn packets(tags: &[u8]) -> Vec<Vec<u8>> {
    tags.iter().map(|&t| vec![t, t, t]).collect()
}

#[test]
fn evaluate_source_only() {
    let src = packets(&[0, 1, 2, 3]);
    let rep: Vec<Vec<u8>> = Vec::new();
    let out = evaluate(&src, &rep, Strategy::SourceOnly);
    assert_eq!(out, src);
}

#[test]
fn evaluate_source_plus_repair() {
    let src = packets(&[0, 1, 2]);
    let rep = packets(&[10, 11]);
    let out = evaluate(&src, &rep, Strategy::SourcePlusRepair { repair: 2 });
    assert_eq!(out, packets(&[0, 1, 2, 10, 11]));
}

#[test]
fn evaluate_loss_replace_drops_tail() {
    let src = packets(&[0, 1, 2, 3, 4, 5, 6, 7, 8, 9]);
    let rep = packets(&[10, 11, 12]);
    let out = evaluate(
        &src,
        &rep,
        Strategy::LossReplace { loss_pct: 10, overhead: 2 },
    );
    assert_eq!(out, packets(&[0, 1, 2, 3, 4, 5, 6, 7, 8, 10, 11, 12]));
}

#[test]
fn evaluate_repair_only() {
    let src = packets(&[0, 1, 2]);
    let rep = packets(&[20, 21, 22, 23]);
    let out = evaluate(&src, &rep, Strategy::RepairOnly { repair: 4 });
    assert_eq!(out, rep);
}

#[test]
fn be32_exact_values() {
    assert_eq!(be32(0x01020304), vec![1, 2, 3, 4]);
    assert_eq!(be32(0), vec![0, 0, 0, 0]);
    assert_eq!(be32(u32::MAX), vec![255, 255, 255, 255]);
    assert_eq!(be32(1024), vec![0, 0, 4, 0]);
}

#[test]
fn fixture_image_layout() {
    let oti: Vec<u8> = (0..12).collect();
    let data: Vec<u8> = vec![9, 8, 7];
    let pkts: Vec<Vec<u8>> = vec![vec![1, 2, 3, 4, 5], vec![6, 7, 8, 9, 10]];
    let image = fixture_bytes(&oti, &data, &pkts);
    let mut expected: Vec<u8> = Vec::new();
    expected.extend_from_slice(b"RQ01");
    expected.extend_from_slice(&oti);
    expected.extend_from_slice(&[0, 0, 0, 3]);
    expected.extend_from_slice(&data);
    expected.extend_from_slice(&[0, 0, 0, 2]);
    expected.extend_from_slice(&[1, 2, 3, 4, 5, 6, 7, 8, 9, 10]);
    assert_eq!(image, expected);
    // Size formula with one-byte symbols: 4 + 12 + 4 + F + 4 + count*(4+t).
    assert_eq!(image.len(), 4 + 12 + 4 + 3 + 4 + 2 * (4 + 1));
}

#[test]
fn fixture_empty_packet_set() {
    let oti: Vec<u8> = vec![0; 12];
    let data: Vec<u8> = vec![1];
    let pkts: Vec<Vec<u8>> = Vec::new();
    let image = fixture_bytes(&oti, &data, &pkts);
    assert_eq!(image.len(), 4 + 12 + 4 + 1 + 4);
    assert_eq!(&image[21..25], &[0, 0, 0, 0]);
}

#[test]
fn case_table_matches_reference() {
    let cases = vector_cases();
    assert_eq!(cases.len(), 8);
    let names: Vec<&str> = cases.iter().map(|c| c.name).collect();
    assert_eq!(
        names,
        vec![
            "v01_small_source_only",
            "v02_medium_with_repair",
            "v03_large_symbol",
            "v04_loss_10pct",
            "v05_loss_50pct",
            "v06_padding_uneven",
            "v07_minimum_k",
            "v08_repair_only",
        ]
    );
    assert_eq!(
        (cases[0].data_len, cases[0].seed_a, cases[0].seed_b, cases[0].symbol_size),
        (64, 7, 13, 16)
    );
    assert!(matches!(cases[0].strategy, Strategy::SourceOnly));
    assert_eq!(
        (cases[3].data_len, cases[3].seed_a, cases[3].seed_b, cases[3].symbol_size),
        (512, 17, 41, 32)
    );
    assert!(matches!(
        cases[3].strategy,
        Strategy::LossReplace { loss_pct: 10, overhead: 2 }
    ));
    assert!(matches!(
        cases[4].strategy,
        Strategy::LossReplace { loss_pct: 50, overhead: 2 }
    ));
    assert_eq!((cases[6].data_len, cases[6].symbol_size), (16, 16));
    assert!(matches!(cases[6].strategy, Strategy::SourcePlusRepair { repair: 9 }));
    assert!(matches!(cases[7].strategy, Strategy::RepairOnly { repair: 10 }));
}
