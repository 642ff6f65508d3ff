use crud_bench::binary64::{unit_fraction, Float64};
use crud_bench::config::SteadyStateConfig;
use crud_bench::selector::{
    build_scrambled_keys, splitmix64, uses_zipfian, worker_index, KeySelector,
};
use crud_bench::workload::SteadyStateWorkload;

fn config(records: u32, seed: u64) -> SteadyStateConfig {
    SteadyStateConfig {
        records,
        warmup_secs: 0,
        measurement_secs: 1,
        latency_sample_every: 1,
        seed,
        zipfian_exponent: Float64::from_bits(0.99f64.to_bits()),
        bench_spec: None,
        operation_mix: None,
        operation_schedule: None,
        operation_mix_period: 1000,
    }
}

fn zipf_cdf(records: u32, exponent: f64) -> Vec<Float64> {
    let mut weights = Vec::new();
    let mut total = 0.0;
    for rank in 1..=records.max(1) {
        total += 1.0 / (rank as f64).powf(exponent);
        weights.push(total);
    }
    weights.iter().map(|weight| Float64::from_bits((weight / total).to_bits())).collect()
}

fn keys(records: u32, seed: u64, worker: u64, workload: SteadyStateWorkload) -> KeySelector {
    KeySelector::new(&config(records, seed), workload, worker, zipf_cdf(records, 0.99))
}

#[test]
fn splitmix64_has_its_known_values() {
    assert_eq!(splitmix64(0), 0xE220_A839_7B1D_CDAF);
    assert_eq!(splitmix64(1), 0x910A_2DEC_8902_5CC1);
}

#[test]
fn workers_start_from_the_mixed_seed() {
    for worker in [0u64, 1, 17] {
        let selector = keys(100, 9, worker, SteadyStateWorkload::PointReadUniform);
        assert_eq!(selector.rng, splitmix64(9 ^ worker));
    }
}

#[test]
fn scrambled_keys_are_a_permutation_that_moves_the_first_key() {
    assert_eq!(build_scrambled_keys(5, 1), vec![4, 0, 3, 1, 2]);
    assert_eq!(build_scrambled_keys(5, 7), vec![1, 4, 0, 3, 2]);
    assert_eq!(build_scrambled_keys(2, 3), vec![1, 0]);
    assert_eq!(build_scrambled_keys(1, 1), vec![0]);
    assert_eq!(build_scrambled_keys(0, 1), vec![0]);
    for seed in 0..50 {
        let scrambled = build_scrambled_keys(64, seed);
        assert_ne!(scrambled[0], 0);
        let mut sorted = scrambled;
        sorted.sort();
        assert_eq!(sorted, (0..64).collect::<Vec<u32>>());
    }
}

#[test]
fn uniform_keys_follow_the_seed() {
    let draw = |worker| {
        let mut selector = keys(100, 1, worker, SteadyStateWorkload::PointReadUniform);
        (0..6).map(|_| selector.next_key()).collect::<Vec<u32>>()
    };
    assert_eq!(draw(0), vec![58, 95, 14, 81, 20, 68]);
    assert_eq!(draw(3), vec![36, 85, 23, 72, 32, 3]);
}

#[test]
fn zipfian_keys_follow_the_seed() {
    let mut selector = keys(100, 1, 0, SteadyStateWorkload::PointReadZipfian);
    let drawn: Vec<u32> = (0..8).map(|_| selector.next_key()).collect();
    assert_eq!(drawn, vec![38, 69, 26, 93, 56, 8, 65, 8]);
}

#[test]
fn missing_keys_lie_beyond_the_records() {
    let mut present = keys(100, 1, 0, SteadyStateWorkload::PointReadMissingInRange);
    let mut missing = keys(100, 1, 0, SteadyStateWorkload::PointReadMissingInRange);
    for _ in 0..50 {
        let key = missing.next_missing_key().unwrap();
        assert_eq!(key, 100 + present.next_key());
    }
    let mut full = KeySelector {
        records: u32::MAX,
        scan_width: 100,
        rng: 1,
        zipf_cdf: Vec::new(),
        scrambled_keys: Vec::new(),
    };
    let err = full.next_missing_key().unwrap_err();
    assert_eq!(err.message(), "missing-read key range exceeded u32 key space");
}

#[test]
fn scans_start_where_a_full_width_fits() {
    let mut selector = keys(250, 7, 0, SteadyStateWorkload::RangeScanUniform);
    let starts: Vec<_> = (0..3).map(|_| selector.next_scan().start).collect();
    assert_eq!(starts, vec![Some(138), Some(7), Some(41)]);

    let mut small = keys(40, 7, 0, SteadyStateWorkload::RangeScanUniform);
    let scan = small.next_scan();
    assert_eq!((scan.id.as_str(), scan.name.as_str()), ("range_scan_uniform", "range_scan_uniform"));
    assert_eq!((scan.start, scan.limit, scan.expect), (Some(0), Some(100), Some(40)));
    assert_eq!(scan.projection.as_deref(), Some("ID"));
    assert!(scan.condition.is_none() && scan.with_index.is_none() && scan.with_writes.is_empty());
}

#[test]
fn an_empty_range_gives_zero_and_draws_nothing() {
    let mut selector = keys(100, 1, 0, SteadyStateWorkload::PointReadUniform);
    let before = selector.rng;
    assert_eq!(selector.uniform_u32(0), 0);
    assert_eq!(selector.rng, before);
}

#[test]
fn fractions_are_quotients_by_the_largest_word() {
    for word in [0, 1, 2, 3, 1 << 53, (1 << 53) + 1, (1 << 60) + 255, u64::MAX - 1024, u64::MAX] {
        let quotient = word as f64 / u64::MAX as f64;
        assert_eq!(unit_fraction(word).bits, quotient.to_bits());
    }
    let mut word: u64 = 1;
    for _ in 0..10_000 {
        word = splitmix64(word);
        assert_eq!(unit_fraction(word).bits, (word as f64 / u64::MAX as f64).to_bits());
        let short = word >> (word % 64);
        assert_eq!(unit_fraction(short).bits, (short as f64 / u64::MAX as f64).to_bits());
    }
}

#[test]
fn comparisons_are_those_of_floating_point() {
    let values = [
        0.0,
        -0.0,
        1.0,
        -1.0,
        1.5,
        f64::MIN_POSITIVE / 2.0,
        -f64::MIN_POSITIVE / 2.0,
        f64::MAX,
        f64::MIN,
        f64::INFINITY,
        f64::NEG_INFINITY,
        f64::NAN,
        -f64::NAN,
    ];
    for a in values {
        let x = Float64::from_bits(a.to_bits());
        assert_eq!(x.is_nan(), a.is_nan());
        assert_eq!(x.is_finite(), a.is_finite());
        assert_eq!(x.neg().bits, (-a).to_bits());
        assert_eq!(x.invalid_quantity(), a < 0.0 || !a.is_finite());
        for b in values {
            let y = Float64::from_bits(b.to_bits());
            assert_eq!(x.lt(y), a < b);
            assert_eq!(x.le(y), a <= b);
            assert_eq!(x.same(y), a == b);
        }
    }
    assert_eq!(Float64::zero().bits, 0.0f64.to_bits());
    assert_eq!(Float64::infinity().bits, f64::INFINITY.to_bits());
}

#[test]
fn only_zipfian_rows_sample_ranks() {
    assert!(uses_zipfian(SteadyStateWorkload::BalancedZipfian));
    assert!(uses_zipfian(SteadyStateWorkload::PointReadMissingInRange));
    assert!(!uses_zipfian(SteadyStateWorkload::PointReadUniform));
    assert!(!uses_zipfian(SteadyStateWorkload::SustainedIngest));
    assert!(!uses_zipfian(SteadyStateWorkload::Idle));
}

#[test]
fn no_two_workers_share_a_number() {
    let mut seen = Vec::new();
    for client in 0..4 {
        for thread in 0..3 {
            seen.push(worker_index(client, 3, thread));
        }
    }
    assert_eq!(seen, (0..12).collect::<Vec<u64>>());
    assert_eq!(worker_index(u32::MAX, u32::MAX, u32::MAX), u32::MAX as u64 * (1 << 32));
}
