use crud_bench::binary64::Float64;
use crud_bench::config::SteadyStateConfig;
use crud_bench::recorder::Recorder;
use crud_bench::row::{
    completed_phase, failed_steady_state_row, reset_steady_state_upper, row_verdict,
    unsupported_steady_state_row, Reason, SteadyStateResult, SteadyStateStatus,
};
use crud_bench::selector::KeySelector;
use crud_bench::settings::{Args, Benchmark, SteadyStatePreset, Suite};
use crud_bench::suite::{
    next_in_row, row_heading, start_row, RowAction, RowNext, RowReply, RowStage, SuiteAction,
    SuiteRun,
};
use crud_bench::window::{
    Answer, Measured, RowFigures, SteadyStateMeasurement, Window, WindowCall,
};
use crud_bench::workload::{SteadyStateOperation, SteadyStateWorkload};

fn float(value: f64) -> Float64 {
    Float64::from_bits(value.to_bits())
}

fn value_of(value: Float64) -> f64 {
    f64::from_bits(value.bits)
}

fn benchmark() -> Benchmark {
    let args = Args {
        privileged: false,
        image: None,
        endpoint: None,
        clients: 2,
        threads: 3,
        samples: 10,
        sync: true,
        pid: None,
        persisted: false,
        optimised: false,
        skip_deletes: false,
        skip_writes: false,
        operation_timeout: 300,
        emit_phase_markers: false,
        suite: Suite::SteadyState,
        bench: None,
        preset: SteadyStatePreset::Smoke,
        warmup_secs: None,
        measurement_secs: None,
        latency_sample_every: None,
        seed: 1,
        zipfian_exponent: float(0.99),
        operation_mix: None,
        operation_mix_period: 10,
    };
    Benchmark::new(&args, None)
}

fn config(warmup_secs: u64) -> SteadyStateConfig {
    SteadyStateConfig {
        records: 10,
        warmup_secs,
        measurement_secs: 4,
        latency_sample_every: 2,
        seed: 1,
        zipfian_exponent: float(0.99),
        bench_spec: None,
        operation_mix: None,
        operation_schedule: None,
        operation_mix_period: 10,
    }
}

fn keys(workload: SteadyStateWorkload) -> KeySelector {
    let cdf = (1..=10).map(|rank| float(rank as f64 / 10.0)).collect();
    KeySelector::new(&config(0), workload, 0, cdf)
}

fn reason(message: &str) -> Reason {
    Reason { message: message.to_string(), chain: format!("{message}: cause") }
}

fn failed(message: &str) -> Answer {
    Answer::Failed { reason: message.to_string() }
}

fn key_of(call: &WindowCall) -> u32 {
    match call {
        WindowCall::Create { key } | WindowCall::Read { key } | WindowCall::Update { key } => *key,
        WindowCall::Scan { .. } => 0,
    }
}

fn step(
    window: &mut Window,
    workload: SteadyStateWorkload,
    recorder: &mut Recorder,
    answer: Answer,
    second: usize,
) -> bool {
    let config = config(0);
    let op_index = window.claim();
    let op = workload.operation_at(&config, op_index);
    let call = window.call(workload, op, op_index, &mut keys(workload)).ok().expect("the key fits");
    let key = key_of(&call);
    window.settle(recorder, &config, workload, op, op_index, key, answer, true, 7, second)
}

#[test]
fn windows_count_what_succeeds() {
    let row = SteadyStateWorkload::BalancedZipfian;
    let mut window = Window::new(0);
    let mut recorder = Recorder::new();
    for second in [0, 0, 2, 2, 2, 3, 3] {
        assert!(step(&mut window, row, &mut recorder, Answer::Succeeded, second));
    }
    assert_eq!(window.counts.completed, 7);
    assert_eq!((window.counts.read_hits, window.counts.updates), (5, 2));
    assert_eq!(window.counts.latency_samples, 4);
    assert_eq!(recorder.counts(), vec![(7, 4)]);
    assert_eq!(window.per_second, vec![2, 0, 3, 2]);
    let measurement: SteadyStateMeasurement<u32> = SteadyStateMeasurement::of(window, None);
    assert_eq!(measurement.observed_mix(), "read=0.714286,update=0.285714");
    assert_eq!(row.expected_mix_prefix(&config(0), 7), "read=5,update=2");
    assert_eq!(measurement.per_second_windows.iter().sum::<u64>(), measurement.completed);
}

#[test]
fn observed_mixes_are_shares_of_all_operations() {
    let observed = |creates, read_hits, read_misses, updates, scans| {
        let mut window = Window::new(0);
        window.counts.creates = creates;
        window.counts.read_hits = read_hits;
        window.counts.read_misses = read_misses;
        window.counts.updates = updates;
        window.counts.scans = scans;
        let measurement: SteadyStateMeasurement<u32> = SteadyStateMeasurement::of(window, None);
        measurement.observed_mix()
    };
    assert_eq!(observed(0, 61728, 0, 61728, 0), "read=0.500000,update=0.500000");
    assert_eq!(observed(9, 0, 0, 0, 0), "create=1.000000");
    assert_eq!(observed(0, 0, 3, 0, 0), "read=1.000000");
    assert_eq!(observed(1, 1, 0, 0, 1), "create=0.333333,read=0.333333,scan=0.333333");
    assert_eq!(observed(0, 2, 0, 0, 1), "read=0.666667,scan=0.333333");
    assert_eq!(observed(0, 1, 0, 0, 1_999_999), "read=0.000000,scan=1.000000");
    assert_eq!(observed(0, u64::MAX, u64::MAX, 0, 0), "read=1.000000");
    assert_eq!(observed(0, 0, 0, 0, 0), "");
}

#[test]
fn workers_may_finish_in_any_order() {
    let row = SteadyStateWorkload::BalancedZipfian;
    let config = config(0);
    let mut window = Window::new(0);
    let mut recorder = Recorder::new();
    let claimed: Vec<u64> = (0..7).map(|_| window.claim()).collect();
    for (i, second) in [(6, 1), (0, 0), (5, 3), (3, 0), (4, 1), (1, 0), (2, 1)] {
        let op_index = claimed[i];
        let op = row.operation_at(&config, op_index);
        let answer = Answer::Succeeded;
        assert!(window.settle(&mut recorder, &config, row, op, op_index, 0, answer, true, 7, second));
    }
    let counts = window.counts;
    assert_eq!((counts.completed, counts.errors), (7, 0));
    assert_eq!((counts.read_hits, counts.updates), (5, 2));
    assert_eq!(row.expected_mix_prefix(&config, 7), "read=5,update=2");
    assert_eq!(counts.latency_samples, 4);
    assert_eq!(window.per_second, vec![3, 3, 0, 1]);
}

#[test]
fn the_first_failure_is_kept() {
    let row = SteadyStateWorkload::PointReadUniform;
    let mut window = Window::new(0);
    let mut recorder = Recorder::new();
    assert!(!step(&mut window, row, &mut recorder, failed("gone"), 0));
    assert!(!step(&mut window, row, &mut recorder, Answer::TimedOut, 0));
    assert_eq!(window.failure_reason.as_deref(), Some("gone"));
    assert_eq!((window.counts.errors, window.counts.completed), (2, 0));
    assert_eq!(window.counts.read_misses, 1);
    assert!(window.per_second.is_empty());

    let mut late = Window::new(0);
    assert!(!step(&mut late, row, &mut recorder, Answer::TimedOut, 0));
    assert_eq!(late.failure_reason.as_deref(), Some("steady-state point_read_uniform timed out"));
}

#[test]
fn missing_reads_must_miss() {
    let row = SteadyStateWorkload::PointReadMissingInRange;
    let mut window = Window::new(0);
    let mut recorder = Recorder::new();
    assert!(step(&mut window, row, &mut recorder, failed("key should exist"), 0));
    assert_eq!((window.counts.read_misses, window.counts.completed), (1, 1));
    assert!(window.failure_reason.is_none());

    let config = config(0);
    let mut selector = keys(row);
    let op_index = window.claim();
    let op = SteadyStateOperation::Read;
    let call = window.call(row, op, op_index, &mut selector).ok().unwrap();
    let key = key_of(&call);
    assert!(key >= 10);
    assert!(!window.settle(&mut recorder, &config, row, op, op_index, key, Answer::Succeeded, true, 7, 0));
    assert_eq!(
        window.failure_reason,
        Some(format!("steady-state point_read_missing_in_range expected missing key {key}"))
    );
    assert_eq!(window.counts.read_hits, 1);
}

#[test]
fn scans_that_fail_are_counted_apart() {
    let row = SteadyStateWorkload::RangeScanUniform;
    let mut window = Window::new(0);
    let mut recorder = Recorder::new();
    assert!(step(&mut window, row, &mut recorder, Answer::Succeeded, 0));
    assert!(!step(&mut window, row, &mut recorder, failed("short scan"), 0));
    assert_eq!((window.counts.scans, window.counts.scan_count_errors), (1, 1));
}

#[test]
fn ingest_keys_go_on_from_the_warmup() {
    let row = SteadyStateWorkload::SustainedIngest;
    let mut window = Window::new(40);
    assert_eq!(window.counts.cleanup_upper, 40);
    let mut recorder = Recorder::new();
    let mut created = Vec::new();
    for _ in 0..3 {
        let op_index = window.claim();
        let op = SteadyStateOperation::Create;
        let call = window.call(row, op, op_index, &mut keys(row)).ok().unwrap();
        created.push(key_of(&call));
        assert!(window.settle(&mut recorder, &config(0), row, op, op_index, 0, Answer::Succeeded, false, 7, 0));
    }
    assert_eq!(created, vec![40, 41, 42]);
    assert_eq!((window.counts.creates, window.counts.cleanup_upper), (3, 43));
    assert_eq!(window.counts.latency_samples, 0);
    assert!(window.per_second.is_empty() && recorder.counts().is_empty());
}

#[test]
fn ingest_stops_at_the_end_of_the_key_space() {
    let row = SteadyStateWorkload::SustainedIngest;
    let op = SteadyStateOperation::Create;
    let mut window = Window::new(1 << 32);
    let err = window.call(row, op, 0, &mut keys(row)).err().unwrap();
    assert_eq!(err.message(), "sustained_ingest exceeded u32 key space");
    let err = window.call(row, op, u64::MAX, &mut keys(row)).err().unwrap();
    assert_eq!(err.message(), "sustained_ingest exceeded u64 key space");
    window.fail(op, err.message().to_string());
    assert_eq!(window.counts.errors, 1);
    assert_eq!(
        window.failure_reason.as_deref(),
        Some("sustained_ingest exceeded u64 key space")
    );
}

#[test]
fn resets_cover_what_a_row_wrote() {
    let config = config(0);
    let upper = |row, done| reset_steady_state_upper(&config, row, done);
    assert_eq!(upper(SteadyStateWorkload::BalancedZipfian, 99).ok(), Some(Some(10)));
    assert_eq!(upper(SteadyStateWorkload::SustainedIngest, 99).ok(), Some(Some(99)));
    assert_eq!(upper(SteadyStateWorkload::SustainedIngest, 0).ok(), Some(None));
    assert_eq!(
        upper(SteadyStateWorkload::SustainedIngest, 1 << 32).err().unwrap().message(),
        "sustained_ingest cleanup exceeded u32 key space"
    );
}

#[test]
fn verdicts_combine_the_measurement_and_the_cleanup() {
    let verdict = |failure: Option<&str>, cleanup: Option<Reason>| {
        let v = row_verdict(failure.map(str::to_string), cleanup);
        (v.status, v.unsupported_reason, v.failure_reason, v.cleanup_status)
    };
    let some = |text: &str| Some(text.to_string());
    let (done, skipped, bad) =
        (SteadyStateStatus::Completed, SteadyStateStatus::Unsupported, SteadyStateStatus::Failed);
    assert_eq!(verdict(None, None), (done, None, None, done));
    assert_eq!(verdict(Some("NotSupported"), None), (skipped, some("NotSupported"), None, done));
    assert_eq!(verdict(Some("gone"), None), (bad, None, some("gone"), done));
    assert_eq!(
        verdict(None, Some(reason("busy"))),
        (bad, None, some("cleanup failed: busy: cause"), bad)
    );
    assert_eq!(
        verdict(Some("NotSupported"), Some(reason("busy"))),
        (bad, None, some("NotSupported; cleanup failed: busy: cause"), bad)
    );
    assert_eq!(
        verdict(Some("gone"), Some(reason("NotSupported"))),
        (bad, None, some("gone; cleanup failed: NotSupported: cause"), bad)
    );
}

#[test]
fn rows_that_do_not_run_say_why() {
    let row: SteadyStateResult<u32> = unsupported_steady_state_row(
        &benchmark(),
        Some("toykv".to_string()),
        &config(3),
        SteadyStateWorkload::RangeScanUniform,
        "NotSupported".to_string(),
    );
    assert_eq!((row.name.as_str(), row.suite), ("range_scan_uniform", "steady-state"));
    assert_eq!(row.unsupported_reason.as_deref(), Some("NotSupported"));
    assert_eq!(row.phases.measure.status, SteadyStateStatus::Unsupported);
    assert!(row.failure_reason.is_none() && row.validation.is_none() && row.drain.is_none());
    assert_eq!((row.task.records, row.task.clients, row.task.threads), (10, 2, 3));
    assert_eq!((row.task.warmup_secs, row.task.measurement_secs), (3, 4));
    assert_eq!(row.task.worker_seed_derivation, "splitmix64(seed ^ worker_index)");
    assert_eq!((row.task.operation_mix.as_str(), row.task.key_selection), ("scan=1.0", "uniform_positional"));

    let row: SteadyStateResult<u32> = failed_steady_state_row(
        &benchmark(),
        None,
        &config(0),
        SteadyStateWorkload::Idle,
        "gone".to_string(),
    );
    assert_eq!(row.failure_reason.as_deref(), Some("gone"));
    let validation = row.validation.unwrap();
    assert_eq!((validation.errors, validation.observed_mix.as_str()), (1, ""));
    assert_eq!(validation.expected_mix_prefix, "none");
    assert_eq!(value_of(completed_phase(float(2.5)).elapsed_ms), 2.5);
}

fn measured(row: SteadyStateWorkload, start: u64, answers: Vec<Answer>) -> SteadyStateMeasurement<u32> {
    let mut window = Window::new(start);
    let mut recorder = Recorder::new();
    for answer in answers {
        if !step(&mut window, row, &mut recorder, answer, 0) {
            break;
        }
    }
    let figures = RowFigures {
        ops_per_sec: float(1.5),
        per_second_windows: vec![float(1.0)],
        p50_ms: float(0.1),
        p95_ms: float(0.2),
        p99_ms: float(0.3),
    };
    SteadyStateMeasurement::of(window, Some(Measured { result: 11, figures }))
}

struct Trail {
    actions: Vec<RowAction>,
    row: Option<SteadyStateResult<u32>>,
    error: Option<String>,
}

fn drive(
    config: &SteadyStateConfig,
    workload: SteadyStateWorkload,
    reply: &dyn Fn(RowAction) -> RowReply<u32>,
) -> Trail {
    let mut trail = Trail { actions: Vec::new(), row: None, error: None };
    let (mut stage, mut action): (RowStage<u32>, RowAction) = start_row(config, workload);
    loop {
        trail.actions.push(action);
        let answer = reply(action);
        let database = Some("toykv".to_string());
        match next_in_row(stage, answer, &benchmark(), config, workload, database) {
            RowNext::Act { stage: next, action: wanted } => {
                stage = next;
                action = wanted;
            }
            RowNext::Row { row } => {
                trail.row = Some(row);
                return trail;
            }
            RowNext::Error { reason } => {
                trail.error = Some(reason.message);
                return trail;
            }
        }
    }
}

fn done(elapsed_ms: f64) -> RowReply<u32> {
    RowReply::Done { elapsed_ms: float(elapsed_ms) }
}

fn window_reply(measurement: SteadyStateMeasurement<u32>) -> RowReply<u32> {
    RowReply::Measured { elapsed_ms: float(9.0), measurement }
}

#[test]
fn a_row_loads_warms_up_measures_drains_and_cleans() {
    let row = SteadyStateWorkload::PointReadUniform;
    let trail = drive(&config(2), row, &|action| match action {
        RowAction::RunWindow { start_op_index, .. } => {
            window_reply(measured(row, start_op_index, vec![Answer::Succeeded, Answer::Succeeded]))
        }
        RowAction::Quiesce => done(25.0),
        _ => done(1.0),
    });
    assert_eq!(
        trail.actions,
        vec![
            RowAction::Load { records: 10 },
            RowAction::RunWindow { secs: 2, record: false, start_op_index: 0 },
            RowAction::RunWindow { secs: 4, record: true, start_op_index: 2 },
            RowAction::Quiesce,
            RowAction::Reset { completed_operations: 2 },
        ]
    );
    let row = trail.row.unwrap();
    assert_eq!(row.status, SteadyStateStatus::Completed);
    assert_eq!(row.database.as_deref(), Some("toykv"));
    assert_eq!(row.operation_result, Some(11));
    let throughput = row.throughput.unwrap();
    assert_eq!((throughput.completed_operations, value_of(throughput.ops_per_sec)), (2, 1.5));
    let latency = row.latency.unwrap();
    assert_eq!((latency.sample_count, value_of(latency.p99_ms)), (1, 0.3));
    let validation = row.validation.unwrap();
    assert_eq!((validation.errors, validation.read_hits), (0, 2));
    assert_eq!(validation.observed_mix, "read=1.000000");
    assert_eq!(validation.expected_mix_prefix, "read=2");
    let drain = row.drain.unwrap();
    assert_eq!((value_of(drain.elapsed_ms), drain.timed_out), (25.0, false));
    assert_eq!(value_of(row.phases.measure.elapsed_ms), 9.0);
}

#[test]
fn ingest_measures_after_the_keys_of_its_warmup() {
    let row = SteadyStateWorkload::SustainedIngest;
    let trail = drive(&config(1), row, &|action| match action {
        RowAction::RunWindow { start_op_index, .. } => {
            window_reply(measured(row, start_op_index, vec![Answer::Succeeded, Answer::Succeeded]))
        }
        _ => done(1.0),
    });
    assert_eq!(
        trail.actions,
        vec![
            RowAction::Nothing,
            RowAction::RunWindow { secs: 1, record: false, start_op_index: 0 },
            RowAction::RunWindow { secs: 4, record: true, start_op_index: 2 },
            RowAction::Quiesce,
            RowAction::Reset { completed_operations: 4 },
        ]
    );
}

#[test]
fn a_failed_warmup_is_cleaned_up_and_reported() {
    let row = SteadyStateWorkload::BalancedZipfian;
    let fails = |action: RowAction| match action {
        RowAction::RunWindow { start_op_index, .. } => {
            window_reply(measured(row, start_op_index, vec![Answer::Succeeded, failed("gone")]))
        }
        _ => done(1.0),
    };
    let trail = drive(&config(1), row, &fails);
    assert_eq!(
        trail.actions,
        vec![
            RowAction::Load { records: 10 },
            RowAction::RunWindow { secs: 1, record: false, start_op_index: 0 },
            RowAction::Reset { completed_operations: 0 },
        ]
    );
    assert_eq!(trail.error.as_deref(), Some("gone"));
}

#[test]
fn a_failed_measurement_still_gives_a_row() {
    let row = SteadyStateWorkload::BalancedZipfian;
    let trail = drive(&config(0), row, &|action| match action {
        RowAction::RunWindow { start_op_index, .. } => {
            window_reply(measured(row, start_op_index, vec![failed("NotSupported")]))
        }
        RowAction::Reset { .. } => {
            RowReply::Failed { elapsed_ms: float(3.0), reason: reason("busy") }
        }
        _ => done(1.0),
    });
    let row = trail.row.unwrap();
    assert_eq!(row.status, SteadyStateStatus::Failed);
    assert_eq!(
        row.failure_reason.as_deref(),
        Some("NotSupported; cleanup failed: busy: cause")
    );
    assert_eq!(row.phases.cleanup.status, SteadyStateStatus::Failed);
    assert_eq!(value_of(row.phases.cleanup.elapsed_ms), 3.0);
    assert_eq!(row.validation.unwrap().errors, 1);
}

#[test]
fn idle_rows_only_wait() {
    let trail = drive(&config(2), SteadyStateWorkload::Idle, &|_| done(1.0));
    assert_eq!(
        trail.actions,
        vec![
            RowAction::Load { records: 10 },
            RowAction::Sleep { secs: 2 },
            RowAction::Sleep { secs: 4 },
            RowAction::Quiesce,
            RowAction::Reset { completed_operations: 10 },
        ]
    );
    let row = trail.row.unwrap();
    assert_eq!(row.status, SteadyStateStatus::Completed);
    assert!(row.throughput.is_none() && row.latency.is_none());
    assert_eq!(row.validation.unwrap().observed_mix, "none");

    let unsupported = drive(&config(0), SteadyStateWorkload::Idle, &|action| match action {
        RowAction::Reset { .. } => {
            RowReply::Failed { elapsed_ms: float(1.0), reason: reason("NotSupported") }
        }
        _ => done(1.0),
    });
    let row = unsupported.row.unwrap();
    assert_eq!(row.status, SteadyStateStatus::Unsupported);
    assert_eq!(row.phases.cleanup.status, SteadyStateStatus::Unsupported);
    assert_eq!(row.unsupported_reason.as_deref(), Some("NotSupported"));
}

#[test]
fn the_suite_gives_every_row_a_result() {
    let rows = vec![
        SteadyStateWorkload::BalancedZipfian,
        SteadyStateWorkload::PointReadUniform,
        SteadyStateWorkload::RangeScanUniform,
        SteadyStateWorkload::Idle,
    ];
    let (config, benchmark) = (config(0), benchmark());
    let mut suite: SuiteRun<u32> = SuiteRun::new(rows.clone(), &config);
    assert_eq!(suite.action(), SuiteAction::Open { workload: rows[0] });
    assert_eq!(suite.opened(Some(reason("gone")), &benchmark, &config, None), None);

    assert_eq!(suite.action(), SuiteAction::Open { workload: rows[1] });
    assert_eq!(
        suite.opened(Some(reason("NotSupported")), &benchmark, &config, None).as_deref(),
        Some("steady-state pre-run cleanup for point_read_uniform is unsupported; continuing")
    );
    assert_eq!(suite.action(), SuiteAction::Run { workload: rows[1] });
    suite.stopped(reason("NotSupported"));
    assert_eq!(suite.action(), SuiteAction::Recover { workload: rows[1] });
    assert_eq!(
        suite.recovered(Some(reason("busy")), &benchmark, &config, None).as_deref(),
        Some("steady-state error cleanup for point_read_uniform failed: busy: cause")
    );

    assert_eq!(suite.opened(None, &benchmark, &config, None), None);
    suite.stopped(reason("disk"));
    assert_eq!(suite.recovered(None, &benchmark, &config, None), None);

    assert_eq!(suite.opened(None, &benchmark, &config, None), None);
    let idle = drive(&config, SteadyStateWorkload::Idle, &|_| done(1.0)).row.unwrap();
    suite.ran(idle, &config);
    assert_eq!(suite.action(), SuiteAction::End);

    let statuses: Vec<_> = suite.results.iter().map(|row| (row.name.as_str(), row.status)).collect();
    assert_eq!(
        statuses,
        vec![
            ("balanced_zipfian", SteadyStateStatus::Failed),
            ("point_read_uniform", SteadyStateStatus::Unsupported),
            ("range_scan_uniform", SteadyStateStatus::Failed),
            ("idle", SteadyStateStatus::Completed),
        ]
    );
    assert_eq!(suite.results[0].failure_reason.as_deref(), Some("gone"));
    assert_eq!(suite.results[2].failure_reason.as_deref(), Some("disk"));
    assert_eq!(row_heading(rows[0]), "Steady-state \u{b7} balanced_zipfian");
}
