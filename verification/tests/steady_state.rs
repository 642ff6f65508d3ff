use crud_bench::binary64::Float64;
use crud_bench::config::SteadyStateConfig;
use crud_bench::failure::Failure;
use crud_bench::mix::{
    operation_mix_values, parse_operation_mix, MixFigure, MixFigures, MAX_OPERATION_MIX_PERIOD,
};
use crud_bench::selector::KeySelector;
use crud_bench::settings::{Args, Benchmark, SteadyStatePreset, Suite};
use crud_bench::workload::{SteadyStateCounts, SteadyStateOperation, SteadyStateWorkload};

fn float(value: f64) -> Float64 {
    Float64::from_bits(value.to_bits())
}

fn figures(spec: &str) -> MixFigures {
    let mut total = 0.0;
    let mut parts = Vec::new();
    for value in operation_mix_values(spec) {
        parts.push(match value.parse::<f64>() {
            Ok(ratio) => {
                total += ratio;
                MixFigure::Ratio { ratio: float(ratio) }
            }
            Err(e) => MixFigure::Unreadable { reason: e.to_string() },
        });
    }
    MixFigures { parts, sum_gap: float((total - 1.0f64).abs()) }
}

fn parse_mix(spec: &str, period: u32) -> Result<Vec<SteadyStateOperation>, Failure> {
    parse_operation_mix(spec, period, &figures(spec))
}

fn config(bench: Option<&str>, mix: Option<&str>, period: u32) -> SteadyStateConfig {
    SteadyStateConfig {
        records: 100,
        warmup_secs: 0,
        measurement_secs: 1,
        latency_sample_every: 1,
        seed: 1,
        zipfian_exponent: float(0.99),
        bench_spec: bench.map(|s| s.to_string()),
        operation_mix: mix.map(|s| s.to_string()),
        operation_schedule: mix.map(|s| parse_mix(s, period).ok().expect("mix parses")),
        operation_mix_period: period,
    }
}

fn zipf_cdf(records: u32, exponent: f64) -> Vec<Float64> {
    let mut weights = Vec::new();
    let mut total = 0.0;
    for rank in 1..=records.max(1) {
        total += 1.0 / (rank as f64).powf(exponent);
        weights.push(total);
    }
    weights.iter().map(|w| float(w / total)).collect()
}

fn args() -> Args {
    Args {
        privileged: false,
        image: None,
        endpoint: None,
        clients: 1,
        threads: 2,
        samples: 50,
        sync: true,
        pid: None,
        persisted: false,
        optimised: false,
        skip_deletes: false,
        skip_writes: false,
        operation_timeout: 60,
        emit_phase_markers: false,
        suite: Suite::SteadyState,
        bench: None,
        preset: SteadyStatePreset::Default,
        warmup_secs: None,
        measurement_secs: None,
        latency_sample_every: None,
        seed: 1,
        zipfian_exponent: float(0.99),
        operation_mix: None,
        operation_mix_period: 1000,
    }
}

#[test]
fn operation_mix_requires_exact_period() {
    let err = parse_mix("read=0.333,update=0.667", 100).unwrap_err();
    assert!(err.message().contains("cannot be represented exactly"));
}

#[test]
fn operation_mix_builds_canonical_schedule() {
    let schedule = parse_mix("read=0.5,update=0.5", 10).ok().unwrap();
    assert!(matches!(schedule[0], SteadyStateOperation::Read));
    assert!(matches!(schedule[4], SteadyStateOperation::Read));
    assert!(matches!(schedule[5], SteadyStateOperation::Update));
    assert!(matches!(schedule[9], SteadyStateOperation::Update));
}

#[test]
fn operation_mix_rejects_invalid_ratios() {
    for spec in ["read=NaN,update=1.0", "read=inf", "read=-1.0,update=2.0", "read=0.0"] {
        let err = parse_mix(spec, 10).expect_err("invalid ratio fails");
        assert!(err.message().contains("positive finite ratio"));
    }
}

#[test]
fn operation_mix_rejects_huge_period() {
    let err = parse_mix("read=1.0", MAX_OPERATION_MIX_PERIOD + 1).expect_err("huge period fails");

    assert!(err.message().contains("cannot exceed"));
}

#[test]
fn operation_mix_errors_name_the_part() {
    let text = |spec: &str, period: u32| parse_mix(spec, period).unwrap_err().message().to_string();
    assert_eq!(text("read", 10), "operation mix part `read` must use name=value");
    assert_eq!(text("write=1.0", 10), "unsupported operation `write` in operation mix");
    assert_eq!(text("read=x", 10), "invalid float literal");
    assert_eq!(text("read=0.5", 10), "operation mix must sum to 1.0");
    assert_eq!(text("", 10), "operation mix part `` must use name=value");
    assert_eq!(
        text("read=0.3333,update=0.6667", 3000),
        "operation mix part `read=0.3333` cannot be represented exactly by period 3000"
    );
    assert_eq!(text("read=1.0", 100_001), "operation mix period cannot exceed 100000");
}

#[test]
fn operation_mix_takes_whole_slots_only() {
    let text = |spec: &str, period: u32| parse_mix(spec, period).unwrap_err().message().to_string();
    assert_eq!(
        text("read=0.00000001,update=0.99999999", 10),
        "operation mix part `read=0.00000001` cannot be represented exactly by period 10"
    );
    assert_eq!(
        text("read=0.5,update=0.49999999999999999", 10),
        "operation mix part `update=0.49999999999999999` cannot be represented exactly by period 10"
    );
    assert_eq!(
        text("read=0.5,update=0.5", 5),
        "operation mix part `read=0.5` cannot be represented exactly by period 5"
    );
    assert_eq!(
        text("read=1e-300", 100_000),
        "operation mix part `read=1e-300` cannot be represented exactly by period 100000"
    );
    assert_eq!(text("read=1e300", 10), "operation mix must sum to 1.0");
    assert_eq!(text("read=0.5,update=0.6", 10), "operation mix must sum to 1.0");
    assert_eq!(text("read=0.5,update=1e99999999999999999999999999", 10), {
        "operation mix part `update=1e99999999999999999999999999` must be a positive finite ratio"
    });
}

#[test]
fn an_empty_period_has_an_empty_schedule() {
    for spec in ["read=1.0", "read=0.3,update=0.7", "read=0.3333333,update=0.6666667"] {
        assert!(parse_mix(spec, 0).ok().unwrap().is_empty());
    }
    let text = |spec: &str| parse_mix(spec, 0).unwrap_err().message().to_string();
    assert_eq!(text("read=0.5"), "operation mix must sum to 1.0");
    assert_eq!(text("read=1.0,update=1e-5"), "operation mix must sum to 1.0");
    assert_eq!(text("read=0.0"), "operation mix part `read=0.0` must be a positive finite ratio");
    assert_eq!(text("read"), "operation mix part `read` must use name=value");
}

#[test]
fn operation_mix_reads_every_decimal_form() {
    let kinds = |spec: &str, period: u32| {
        let schedule = parse_mix(spec, period).ok().unwrap();
        let reads = schedule.iter().filter(|op| matches!(op, SteadyStateOperation::Read)).count();
        (reads, schedule.len() - reads)
    };
    assert_eq!(kinds("read=.25,update=0.75", 4), (1, 3));
    assert_eq!(kinds("read=+0.2500000000000000000000,update=75e-2", 4), (1, 3));
    assert_eq!(kinds("read=0.0025E+2,update=7.5e-1", 4), (1, 3));
    assert_eq!(kinds("read=0.00001,update=0.99999", 100_000), (1, 99_999));
    assert_eq!(kinds("read=1.", 2), (2, 0));
}

#[test]
fn expected_mix_uses_partial_prefix() {
    let config = config(None, None, 10);
    let prefix = SteadyStateWorkload::BalancedZipfian.expected_mix_prefix(&config, 13);
    assert_eq!(prefix, "read=8,update=5");
    assert_eq!(SteadyStateWorkload::PointReadZipfian.expected_mix_prefix(&config, 13), "read=13");
    assert_eq!(SteadyStateWorkload::SustainedIngest.expected_mix_prefix(&config, 13), "create=13");
}

#[test]
fn balanced_zipfian_rejects_odd_period() {
    let config = config(Some("balanced_zipfian"), None, 999);
    let err = config.workloads().unwrap_err();
    assert!(err.message().contains("requires an even"));
}

#[test]
fn default_steady_state_rows_match_gateable_rows() {
    let config = config(None, None, 1000);
    let rows: Vec<_> =
        config.workloads().ok().unwrap().into_iter().map(SteadyStateWorkload::name).collect();

    assert_eq!(
        rows,
        vec![
            "balanced_zipfian",
            "read_heavy_zipfian",
            "update_heavy_zipfian",
            "point_read_zipfian",
            "point_read_uniform",
            "point_read_missing_in_range",
            "range_scan_uniform",
            "sustained_ingest"
        ]
    );
}

#[test]
fn multi_row_steady_state_is_allowed() {
    let config = config(Some("balanced_zipfian,point_read_zipfian"), None, 1000);
    let workloads = config.workloads().ok().unwrap();
    assert_eq!(
        workloads,
        vec![SteadyStateWorkload::BalancedZipfian, SteadyStateWorkload::PointReadZipfian]
    );
}

#[test]
fn follow_up_zipfian_rows_are_allowed() {
    let config = config(Some("read_heavy_zipfian,update_heavy_zipfian"), None, 1000);
    let workloads = config.workloads().ok().unwrap();

    assert_eq!(
        workloads,
        vec![SteadyStateWorkload::ReadHeavyZipfian, SteadyStateWorkload::UpdateHeavyZipfian]
    );
    assert_eq!(
        SteadyStateWorkload::ReadHeavyZipfian.expected_mix_prefix(&config, 1000),
        "read=950,update=50"
    );
    assert_eq!(
        SteadyStateWorkload::UpdateHeavyZipfian.expected_mix_prefix(&config, 1000),
        "read=50,update=950"
    );
}

fn selector(config: &SteadyStateConfig, workload: SteadyStateWorkload) -> KeySelector {
    KeySelector::new(config, workload, 0, zipf_cdf(config.records, 0.99))
}

#[test]
fn follow_up_zipfian_rows_use_zipfian_selector() {
    let config = config(None, None, 1000);

    let read_heavy = selector(&config, SteadyStateWorkload::ReadHeavyZipfian);
    let update_heavy = selector(&config, SteadyStateWorkload::UpdateHeavyZipfian);
    let uniform = selector(&config, SteadyStateWorkload::PointReadUniform);

    assert!(!read_heavy.zipf_cdf.is_empty());
    assert!(!update_heavy.zipf_cdf.is_empty());
    assert!(!read_heavy.scrambled_keys.is_empty());
    assert!(uniform.zipf_cdf.is_empty());
    assert!(uniform.scrambled_keys.is_empty());
    assert_ne!(read_heavy.scrambled_keys[0], 0);
}

#[test]
fn uniform_selector_stays_within_bounds() {
    let config = config(None, None, 1000);
    let mut selector = selector(&config, SteadyStateWorkload::PointReadUniform);

    for _ in 0..10_000 {
        assert!(selector.uniform_u32(37) < 37);
    }
}

#[test]
fn follow_up_zipfian_rows_reject_inexact_period() {
    let config = config(Some("read_heavy_zipfian"), None, 999);

    let err = config.workloads().unwrap_err();

    assert!(err.message().contains("multiple of 20"));
}

#[test]
fn sustained_ingest_rejects_non_create_custom_mix() {
    let config = config(Some("sustained_ingest"), Some("read=1.0"), 10);

    let err = config.workloads().expect_err("sustained ingest rejects reads");

    assert!(err.message().contains("incompatible with sustained_ingest"));
}

#[test]
fn zipfian_rows_reject_scan_custom_mix() {
    let config = config(Some("balanced_zipfian"), Some("scan=1.0"), 10);

    let err = config.workloads().expect_err("zipfian rows reject scans");

    assert!(err.message().contains("incompatible with balanced_zipfian"));
}

#[test]
fn prepared_workload_rejects_custom_create_mix() {
    let config = config(Some("balanced_zipfian"), Some("create=1.0"), 10);

    let err = config.workloads().expect_err("prepared workloads reject creates");

    assert!(err.message().contains("may include create only for sustained_ingest"));
}

#[test]
fn sustained_ingest_offsets_create_keys_after_warmup() {
    let mut config = config(Some("sustained_ingest"), None, 1000);
    config.warmup_secs = 1;
    assert!(matches!(
        SteadyStateWorkload::SustainedIngest.operation_at(&config, 0),
        SteadyStateOperation::Create
    ));
    assert_eq!(SteadyStateWorkload::SustainedIngest.expected_mix_prefix(&config, 5), "create=5");
}

#[test]
fn row_lists_are_trimmed_and_unknown_rows_refused() {
    let listed = config(Some(" idle , ,point_read_uniform"), None, 1000);
    assert_eq!(
        listed.workloads().ok().unwrap(),
        vec![SteadyStateWorkload::Idle, SteadyStateWorkload::PointReadUniform]
    );
    let unknown = config(Some("idle,nothing"), None, 1000);
    assert_eq!(
        unknown.workloads().unwrap_err().message(),
        "unsupported steady-state workload `nothing`"
    );
}

#[test]
fn names_round_trip() {
    for name in [
        "balanced_zipfian",
        "read_heavy_zipfian",
        "update_heavy_zipfian",
        "point_read_zipfian",
        "point_read_uniform",
        "point_read_missing_in_range",
        "range_scan_uniform",
        "sustained_ingest",
        "idle",
    ] {
        assert_eq!(SteadyStateWorkload::from_name(name).ok().unwrap().name(), name);
    }
}

#[test]
fn rows_describe_their_mix_and_keys() {
    let config = config(None, None, 1000);
    let words = |w: SteadyStateWorkload| (w.operation_mix(&config), w.key_selection());
    assert_eq!(
        words(SteadyStateWorkload::BalancedZipfian),
        ("read=0.5,update=0.5".to_string(), "scrambled_zipfian")
    );
    assert_eq!(
        words(SteadyStateWorkload::PointReadMissingInRange),
        ("read=1.0".to_string(), "scrambled_zipfian_missing_range")
    );
    assert_eq!(
        words(SteadyStateWorkload::RangeScanUniform),
        ("scan=1.0".to_string(), "uniform_positional")
    );
    assert_eq!(words(SteadyStateWorkload::Idle), ("none".to_string(), "none"));
    assert!(!SteadyStateWorkload::SustainedIngest.requires_prepared_dataset());
    assert!(SteadyStateWorkload::PointReadMissingInRange.expects_missing_reads());
    assert_eq!(SteadyStateWorkload::Idle.expected_mix_prefix(&config, 7), "none");
}

#[test]
fn custom_mixes_set_the_schedule_and_the_prefix() {
    let config = config(Some("point_read_uniform"), Some("update=0.25,read=0.75"), 4);
    assert!(config.workloads().is_ok());
    let row = SteadyStateWorkload::PointReadUniform;
    assert_eq!(row.operation_mix(&config), "update=0.25,read=0.75");
    assert!(matches!(row.operation_at(&config, 0), SteadyStateOperation::Update));
    assert!(matches!(row.operation_at(&config, 5), SteadyStateOperation::Read));
    assert_eq!(row.expected_mix_prefix(&config, 5), "read=3,update=2");
}

#[test]
fn counts_become_a_mix_string() {
    let mut counts = SteadyStateCounts::new();
    assert_eq!(counts.to_mix_string(), "");
    counts.add_n(SteadyStateOperation::Scan, 3);
    counts.add(SteadyStateOperation::Create);
    counts.add(SteadyStateOperation::Read);
    counts.add_n(SteadyStateOperation::Update, 12);
    assert_eq!(counts.to_mix_string(), "create=1,read=1,update=12,scan=3");
}

#[test]
fn mix_strings_tell_counts_apart() {
    let text = |creates: u64, reads: u64, updates: u64, scans: u64| {
        SteadyStateCounts { creates, reads, updates, scans }.to_mix_string()
    };
    let mut seen = Vec::new();
    for n in 0..81u64 {
        let part = |k: u32| [0, 1, 11][(n / 3u64.pow(k) % 3) as usize];
        let mix = text(part(0), part(1), part(2), part(3));
        assert_eq!(mix.is_empty(), n == 0);
        assert!(!seen.contains(&mix));
        seen.push(mix);
    }
}

#[test]
fn rows_perform_the_mix_that_they_advertise() {
    let config = config(None, None, 40);
    for row in config.workloads().ok().unwrap() {
        let schedule = parse_mix(&row.operation_mix(&config), 40).ok().unwrap();
        assert_eq!(schedule.len(), 40);
        for i in 0..120u64 {
            assert_eq!(row.operation_at(&config, i), schedule[(i % 40) as usize]);
        }
    }
}

#[test]
fn presets_scale_the_run_and_flags_override_them() {
    let none = MixFigures { parts: Vec::new(), sum_gap: float(0.0) };
    let by_default =
        SteadyStateConfig::from_benchmark(&Benchmark::new(&args(), None), &none).ok().unwrap();
    assert_eq!((by_default.warmup_secs, by_default.measurement_secs), (30, 120));
    assert_eq!(by_default.latency_sample_every, 100);
    assert_eq!(by_default.records, 50);
    assert!(by_default.has_period());

    let mut given = args();
    given.preset = SteadyStatePreset::Large;
    given.warmup_secs = Some(2);
    given.latency_sample_every = Some(0);
    let overridden =
        SteadyStateConfig::from_benchmark(&Benchmark::new(&given, None), &none).ok().unwrap();
    assert_eq!((overridden.warmup_secs, overridden.measurement_secs), (2, 300));
    assert_eq!(overridden.latency_sample_every, 1);

    let mut empty = args();
    empty.operation_mix_period = 0;
    let err = SteadyStateConfig::from_benchmark(&Benchmark::new(&empty, None), &none).err().unwrap();
    assert_eq!(err.message(), "--operation-mix-period must be greater than 0");

    let mut mixed = args();
    mixed.operation_mix = Some("read=0.5,update=0.5".to_string());
    mixed.operation_mix_period = 4;
    let mix = figures("read=0.5,update=0.5");
    let with_mix =
        SteadyStateConfig::from_benchmark(&Benchmark::new(&mixed, None), &mix).ok().unwrap();
    assert_eq!(with_mix.operation_schedule.map(|s| s.len()), Some(4));
}

#[test]
fn the_environment_switch_turns_markers_on() {
    assert!(!Benchmark::new(&args(), None).emit_phase_markers);
    assert!(!Benchmark::new(&args(), Some("0")).emit_phase_markers);
    for value in ["1", "true", "yes", "on"] {
        assert!(Benchmark::new(&args(), Some(value)).emit_phase_markers);
    }
    let mut given = args();
    given.emit_phase_markers = true;
    assert!(Benchmark::new(&given, None).emit_phase_markers);
}
