use crud_bench::artifact::{
    collect_steady_state_rows, required_steady_state_row, JsonNumber, JsonValue, Member,
    SteadyStateDrain, SteadyStateLatency, SteadyStatePhase, SteadyStatePhases, SteadyStateRow,
    SteadyStateRows, SteadyStateTask, SteadyStateThroughput, SteadyStateValidation,
};
use crud_bench::binary64::Float64;
use crud_bench::failure::Failure;
use crud_bench::figure::{Change, Evaluation, Figure};
use crud_bench::gate::{
    evaluate, validate_config, GateConfig, GateFigures, GateInputs, RatioFigures,
};
use crud_bench::mode::{
    csv_input, csv_plan, steady_state_plan, steady_state_rows_to_evaluate, uses_steady_state_mode,
    CsvInput, GateArgs,
};
use crud_bench::steadygate::{
    evaluate_steady_state, RowChanges, SteadyStateGateConfig, SteadyStateGateInputs,
};
use crud_bench::table::{
    duration_text, number_texts, parse_crud_bench_csv, parse_duration_ms, raw_table, read_table,
    required_row, row_alias, BenchCsv, BenchRow, NamedRow, Parsed, RowNumbers,
};

const CSV: &str = "\
Test,Total time,Mean,Max,99th,95th,75th,50th,25th,1st,Min,IQR,OPS,CPU_avg,CPU_min,CPU_max,Memory_peak,Memory_avg,Reads,Writes,System load,System load (1m/5m/15m)
[C]reate,1s,1.00 ms,2.00 ms,1.90 ms,1.80 ms,1.50 ms,1.00 ms,0.50 ms,0.10 ms,0.01 ms,1.00 ms,1000.00,0,0,0,0,0,0,0,0,0/0/0
[B]atch::batch_create_1000 (100 batches of 1000),1s,1.00 ms,2.00 ms,1.90 ms,1.80 ms,1.50 ms,1.00 ms,0.50 ms,0.10 ms,0.01 ms,1.00 ms,500.00,0,0,0,0,0,0,0,0,0/0/0
";

const STEADY_STATE_JSON: &str = r#"{
  "steady_state": [
    {
      "name": "balanced_zipfian",
      "suite": "steady-state",
      "database": "toykv",
      "status": "completed",
      "unsupported_reason": null,
      "sync": true,
      "task": {
        "records": 100,
        "clients": 1,
        "threads": 1,
        "warmup_secs": 0,
        "measurement_secs": 1,
        "latency_sample_every": 1,
        "seed": 1,
        "worker_seed_derivation": "splitmix64(seed ^ worker_index)",
        "operation_mix": "read=1.000000",
        "operation_mix_period": 1000,
        "key_selection": "scrambled_zipfian",
        "zipfian_exponent": 0.99
      },
      "phases": {
        "prepare": { "elapsed_ms": 1.0, "status": "completed" },
        "warmup": { "elapsed_ms": 0.0, "status": "completed" },
        "measure": { "elapsed_ms": 1000.0, "status": "completed" },
        "drain": { "elapsed_ms": 1.0, "status": "completed" },
        "cleanup": { "elapsed_ms": 1.0, "status": "completed" }
      },
      "throughput": {
        "completed_operations": 100,
        "ops_per_sec": 1000.0,
        "per_second_windows": [1000.0]
      },
      "latency": { "sample_count": 100, "p50_ms": 1.0, "p95_ms": 2.0, "p99_ms": 4.0 },
      "validation": {
        "errors": 0,
        "read_hits": 100,
        "read_misses": 0,
        "updates": 0,
        "scan_count_errors": 0,
        "observed_mix": "read=1.000000",
        "expected_mix_prefix": "read=100"
      },
      "drain": { "elapsed_ms": 1.0, "timed_out": false }
    }
  ]
}"#;

fn number(value: f64) -> Float64 {
    Float64::from_bits(value.to_bits())
}

fn figure(value: f64) -> Figure {
    Figure { value: number(value), fixed: format!("{value:.2}"), plain: format!("{value}") }
}

fn value_of(figure: &Figure) -> f64 {
    f64::from_bits(figure.value.bits)
}

fn quotient(current: f64, baseline: f64) -> Change {
    let value = (current - baseline) * 100.0 / baseline;
    Change { value: number(value), fixed: format!("{value:.2}"), signed: format!("{value:+.2}") }
}

fn parsed(text: &str) -> Parsed {
    match text.parse::<f64>() {
        Ok(value) => Parsed::Number { figure: figure(value) },
        Err(_) => Parsed::Unreadable,
    }
}

fn parsed_duration(text: Option<String>) -> Parsed {
    match text {
        Some(text) => parsed(&text),
        None => Parsed::Unreadable,
    }
}

fn parse_csv(csv: &str) -> Result<BenchCsv, Failure> {
    let table = read_table(csv.as_bytes())?;
    let mut numbers = Vec::new();
    for row in &table.rows {
        let (ops, p95, p99) = number_texts(row);
        numbers.push(RowNumbers {
            ops: parsed(&ops),
            p95: parsed_duration(p95),
            p99: parsed_duration(p99),
        });
    }
    parse_crud_bench_csv(&table, numbers)
}

fn csv_error(csv: &str) -> String {
    parse_csv(csv).err().expect("the table is refused").message().to_string()
}

fn change_between(
    current: Result<&BenchRow, Failure>,
    baseline: Result<&BenchRow, Failure>,
    pick: fn(&BenchRow) -> &Figure,
) -> Change {
    match (current, baseline) {
        (Ok(c), Ok(b)) => quotient(value_of(pick(c)), value_of(pick(b))),
        _ => quotient(1.0, 1.0),
    }
}

fn ratio_between(inputs: &GateInputs, row: &str) -> RatioFigures {
    let ops = |csv: &BenchCsv| match required_row(csv, row, "") {
        Ok(found) => value_of(&found.ops),
        Err(_) => 1.0,
    };
    let baseline = ops(&inputs.baseline_sync) / ops(&inputs.baseline_nosync);
    let current = ops(&inputs.current_sync) / ops(&inputs.current_nosync);
    RatioFigures {
        baseline: number(baseline),
        baseline_percent: format!("{:.2}", baseline * 100.0),
        current: number(current),
        current_percent: format!("{:.2}", current * 100.0),
        change: quotient(current, baseline),
    }
}

fn judge(cfg: &GateConfig, inputs: &GateInputs) -> Result<Evaluation, Failure> {
    let changes = |current: &BenchCsv, baseline: &BenchCsv, pick: fn(&BenchRow) -> &Figure| {
        cfg.rows
            .iter()
            .map(|row| {
                change_between(
                    required_row(current, row, ""),
                    required_row(baseline, row, ""),
                    pick,
                )
            })
            .collect::<Vec<_>>()
    };
    let mut figures = GateFigures {
        sync: changes(&inputs.current_sync, &inputs.baseline_sync, |row| &row.ops),
        ratios: cfg.ratio_rows.iter().map(|row| ratio_between(inputs, row)).collect(),
        fjall: Vec::new(),
        latency_p95: Vec::new(),
        latency_p99: Vec::new(),
    };
    if let Some(fjall) = &inputs.fjall_sync {
        figures.fjall = changes(&inputs.current_sync, fjall, |row| &row.ops);
    }
    if let (Some(b), Some(c)) = (&inputs.baseline_latency_sync, &inputs.current_latency_sync) {
        figures.latency_p95 = changes(c, b, |row| &row.p95_ms);
        figures.latency_p99 = changes(c, b, |row| &row.p99_ms);
    }
    evaluate(cfg, inputs, &figures)
}

fn judged(cfg: &GateConfig, inputs: &GateInputs) -> Evaluation {
    judge(cfg, inputs).ok().expect("gate evaluates")
}

fn rows_with(rows: &[(&str, f64, f64, f64)]) -> BenchCsv {
    BenchCsv {
        rows: rows
            .iter()
            .map(|(name, ops, p95, p99)| NamedRow {
                label: name.to_string(),
                row: BenchRow { ops: figure(*ops), p95_ms: figure(*p95), p99_ms: figure(*p99) },
            })
            .collect(),
    }
}

fn rows_with_ops(rows: &[(&str, f64)]) -> BenchCsv {
    rows_with(&rows.iter().map(|(name, ops)| (*name, *ops, 1.0, 2.0)).collect::<Vec<_>>())
}

fn rows_with_latency(rows: &[(&str, f64, f64)]) -> BenchCsv {
    rows_with(&rows.iter().map(|(name, p95, p99)| (*name, 1.0, *p95, *p99)).collect::<Vec<_>>())
}

fn gate_config(rows: &[&str], ratio_rows: &[&str], improvements: usize) -> GateConfig {
    GateConfig {
        rows: rows.iter().map(|row| row.to_string()).collect(),
        ratio_rows: ratio_rows.iter().map(|row| row.to_string()).collect(),
        max_sync_regression_pct: figure(5.0),
        min_ratio_improvements: improvements,
        max_latency_regression_pct: figure(5.0),
    }
}

fn put_c_inputs(baseline: f64, current: f64, current_nosync: f64) -> GateInputs {
    GateInputs {
        baseline_sync: rows_with_ops(&[("put_c", baseline)]),
        current_sync: rows_with_ops(&[("put_c", current)]),
        baseline_nosync: rows_with_ops(&[("put_c", 2000.0)]),
        current_nosync: rows_with_ops(&[("put_c", current_nosync)]),
        fjall_sync: None,
        baseline_latency_sync: None,
        current_latency_sync: None,
    }
}

#[test]
fn parses_crud_bench_csv_aliases() {
    let rows = parse_csv(CSV).ok().expect("parse CSV");

    assert_eq!(value_of(&required_row(&rows, "put_c", "test").ok().unwrap().ops), 1000.0);
    assert_eq!(value_of(&required_row(&rows, "put_c", "test").ok().unwrap().p95_ms), 1.8);
    assert_eq!(value_of(&required_row(&rows, "batch_create_1000", "test").ok().unwrap().ops), 500.0);
}

#[test]
fn parses_quoted_csv_fields() {
    let csv = "\
Test,Total time,Mean,Max,99th,95th,75th,50th,25th,1st,Min,IQR,OPS,CPU_avg,CPU_min,CPU_max,Memory_peak,Memory_avg,Reads,Writes,System load,System load (1m/5m/15m)
\"[B]atch::batch_create_1000 (100 batches, of \"\"1000\"\")\",1s,1.00 ms,2.00 ms,1.90 ms,1.80 ms,1.50 ms,1.00 ms,0.50 ms,0.10 ms,0.01 ms,1.00 ms,500.00,0,0,0,0,0,0,0,0,0/0/0
";

    let rows = parse_csv(csv).ok().expect("parse CSV");

    assert_eq!(value_of(&required_row(&rows, "batch_create_1000", "test").ok().unwrap().ops), 500.0);
}

#[test]
fn parses_placeholder_latency_as_zero() {
    let csv = "\
Test,Total time,Mean,Max,99th,95th,75th,50th,25th,1st,Min,IQR,OPS,CPU_avg,CPU_min,CPU_max,Memory_peak,Memory_avg,Reads,Writes,System load,System load (1m/5m/15m)
[C]reate,1s,1.00 ms,2.00 ms,-,-,1.50 ms,1.00 ms,0.50 ms,0.10 ms,0.01 ms,1.00 ms,1000.00,0,0,0,0,0,0,0,0,0/0/0
";

    let rows = parse_csv(csv).ok().expect("parse CSV");

    assert_eq!(value_of(&required_row(&rows, "put_c", "test").ok().unwrap().p95_ms), 0.0);
    assert_eq!(value_of(&required_row(&rows, "put_c", "test").ok().unwrap().p99_ms), 0.0);
}

#[test]
fn parses_duration_with_variable_spacing() {
    for cell in ["1.25ms", "1.25 ms", "1.25   ms"] {
        let text = duration_text(cell);
        let duration = parse_duration_ms(cell, parsed_duration(text)).ok().unwrap();
        assert_eq!(value_of(&duration), 1.25);
    }
}

#[test]
fn rejects_invalid_numeric_values() {
    for ops in ["NaN", "-1.0"] {
        let csv = format!(
            "\
Test,Total time,Mean,Max,99th,95th,75th,50th,25th,1st,Min,IQR,OPS,CPU_avg,CPU_min,CPU_max,Memory_peak,Memory_avg,Reads,Writes,System load,System load (1m/5m/15m)
[C]reate,1s,1.00 ms,2.00 ms,1.90 ms,1.80 ms,1.50 ms,1.00 ms,0.50 ms,0.10 ms,0.01 ms,1.00 ms,{ops},0,0,0,0,0,0,0,0,0/0/0
"
        );

        let err = parse_csv(&csv).err().expect("invalid numeric value fails");

        assert!(err.message().contains("must be a non-negative number"));
    }
}

#[test]
fn skips_rows_with_placeholder_ops() {
    let csv = "\
Test,Total time,Mean,Max,99th,95th,75th,50th,25th,1st,Min,IQR,OPS,CPU_avg,CPU_min,CPU_max,Memory_peak,Memory_avg,Reads,Writes,System load,System load (1m/5m/15m)
[C]reate,-,-,-,-,-,-,-,-,-,-,-,-,-,-,-,-,-,-,-,-,-
";

    let rows = parse_csv(csv).ok().expect("parse CSV");

    assert!(required_row(&rows, "put_c", "test").is_err());
}

#[test]
fn rejects_duplicate_rows() {
    let csv = "\
Test,Total time,Mean,Max,99th,95th,75th,50th,25th,1st,Min,IQR,OPS,CPU_avg,CPU_min,CPU_max,Memory_peak,Memory_avg,Reads,Writes,System load,System load (1m/5m/15m)
[C]reate,1s,1.00 ms,2.00 ms,1.90 ms,1.80 ms,1.50 ms,1.00 ms,0.50 ms,0.10 ms,0.01 ms,1.00 ms,1000.00,0,0,0,0,0,0,0,0,0/0/0
[C]reate,1s,1.00 ms,2.00 ms,1.90 ms,1.80 ms,1.50 ms,1.00 ms,0.50 ms,0.10 ms,0.01 ms,1.00 ms,900.00,0,0,0,0,0,0,0,0,0/0/0
";

    let err = parse_csv(csv).err().expect("duplicate row fails");

    assert!(err.message().contains("duplicate row"));
}

#[test]
fn detects_ambiguous_row_aliases() {
    let csv = "\
Test,Total time,Mean,Max,99th,95th,75th,50th,25th,1st,Min,IQR,OPS,CPU_avg,CPU_min,CPU_max,Memory_peak,Memory_avg,Reads,Writes,System load,System load (1m/5m/15m)
[B]atch::batch_create_1000 (100 batches of 1000),1s,1.00 ms,2.00 ms,1.90 ms,1.80 ms,1.50 ms,1.00 ms,0.50 ms,0.10 ms,0.01 ms,1.00 ms,500.00,0,0,0,0,0,0,0,0,0/0/0
[B]atch::batch_create_1000 (500 batches of 1000),1s,1.00 ms,2.00 ms,1.90 ms,1.80 ms,1.50 ms,1.00 ms,0.50 ms,0.10 ms,0.01 ms,1.00 ms,600.00,0,0,0,0,0,0,0,0,0/0/0
";

    let rows = parse_csv(csv).ok().expect("parse CSV");
    let err = required_row(&rows, "batch_create_1000", "test").err().expect("ambiguous lookup fails");

    assert!(err.message().contains("ambiguous row"));
}

#[test]
fn rejects_steady_state_rows_in_legacy_gate() {
    for row in ["balanced_zipfian", "read_heavy_zipfian", "update_heavy_zipfian"] {
        let cfg = gate_config(&[row], &[], 0);

        let err = validate_config(&cfg).expect_err("steady-state rows need a steady-state gate");

        assert!(err.message().contains("steady-state row"));
    }
}

#[test]
fn default_steady_state_gate_includes_phase5_rows() {
    let rows = steady_state_rows_to_evaluate(Vec::new(), &Vec::new());

    assert!(rows.contains(&"read_heavy_zipfian".to_string()));
    assert!(rows.contains(&"update_heavy_zipfian".to_string()));
}

#[test]
fn optional_steady_state_rows_are_evaluated() {
    let rows = steady_state_rows_to_evaluate(
        vec!["balanced_zipfian".to_string()],
        &vec!["read_heavy_zipfian".to_string()],
    );

    assert_eq!(rows, vec!["balanced_zipfian", "read_heavy_zipfian"]);
}

#[test]
fn passes_when_ops_and_ratio_gates_hold() {
    let baseline_sync = parse_csv(CSV).ok().expect("parse baseline sync");
    let current_sync = rows_with_ops(&[("put_c", 1100.0), ("batch_create_1000", 550.0)]);
    let baseline_nosync = rows_with_ops(&[("put_c", 2000.0), ("batch_create_1000", 1000.0)]);
    let current_nosync = rows_with_ops(&[("put_c", 1900.0), ("batch_create_1000", 950.0)]);
    let cfg = gate_config(&["put_c", "batch_create_1000"], &["put_c", "batch_create_1000"], 2);
    let inputs = GateInputs {
        baseline_sync,
        current_sync,
        baseline_nosync,
        current_nosync,
        fjall_sync: None,
        baseline_latency_sync: None,
        current_latency_sync: None,
    };

    let eval = judged(&cfg, &inputs);
    assert!(eval.passed);
    assert!(eval.report.contains("Result: PASS"));
    assert_eq!(
        eval.report,
        "ToyKV sync perf gate\n\nSync OPS regression gate:\n\
         - put_c: 1000.00 -> 1100.00 OPS (+10.00%)\n\
         - batch_create_1000: 500.00 -> 550.00 OPS (+10.00%)\n\
         \nSync/no-sync ratio gate:\n\
         - put_c: 50.00% -> 57.89% (+15.79%)\n\
         - batch_create_1000: 50.00% -> 57.89% (+15.79%)\n\
         \nSingle-client p95/p99 latency gate: skipped; no latency CSVs supplied.\n\
         \nResult: PASS\n"
    );
}

#[test]
fn fails_when_sync_regresses_too_much() {
    let cfg = gate_config(&["put_c"], &["put_c"], 0);
    let inputs = put_c_inputs(1000.0, 900.0, 2000.0);

    let eval = judged(&cfg, &inputs);
    assert!(!eval.passed);
    assert!(eval.report.contains("regressed -10.00%"));
}

#[test]
fn rejects_impossible_min_ratio_improvements() {
    let cfg = gate_config(&["put_c"], &["put_c"], 2);

    let err = validate_config(&cfg).expect_err("config fails");

    assert!(err.message().contains("cannot be greater than the number of ratio rows"));
}

#[test]
fn rejects_negative_regression_thresholds() {
    let mut cfg = gate_config(&["put_c"], &["put_c"], 0);
    cfg.max_sync_regression_pct = figure(-1.0);

    let err = validate_config(&cfg).expect_err("negative sync threshold fails");
    assert!(err.message().contains("--max-sync-regression-pct cannot be negative"));

    cfg.max_sync_regression_pct = figure(5.0);
    cfg.max_latency_regression_pct = figure(-1.0);

    let err = validate_config(&cfg).expect_err("negative latency threshold fails");
    assert!(err.message().contains("--max-latency-regression-pct cannot be negative"));
}

#[test]
fn allows_fjall_relative_difference_within_tolerance() {
    let cfg = gate_config(&["put_c"], &["put_c"], 0);
    let mut inputs = put_c_inputs(100.0, 96.0, 2000.0);
    inputs.fjall_sync = Some(rows_with_ops(&[("put_c", 100.0)]));

    let eval = judged(&cfg, &inputs);

    assert!(eval.passed);
    assert!(eval.report.contains("Result: PASS"));
}

#[test]
fn fails_when_fjall_relative_difference_exceeds_tolerance() {
    let cfg = gate_config(&["put_c"], &["put_c"], 0);
    let mut inputs = put_c_inputs(1000.0, 94.0, 2000.0);
    inputs.fjall_sync = Some(rows_with_ops(&[("put_c", 100.0)]));

    let eval = judged(&cfg, &inputs);

    assert!(!eval.passed);
    assert!(eval.report.contains("below -5.00%"));
    assert!(eval.report.contains("- put_c: ToyKV 94.00 / Fjall 100.00 OPS (-6.00%)\n"));
    assert!(eval.report.contains("put_c current sync OPS is below Fjall by -6.00%, below -5.00%"));
}

#[test]
fn fails_when_latency_regresses_too_much() {
    let cfg = gate_config(&["put_c"], &["put_c"], 0);
    let mut inputs = put_c_inputs(1000.0, 1000.0, 1900.0);
    inputs.baseline_latency_sync = Some(rows_with_latency(&[("put_c", 1.0, 2.0)]));
    inputs.current_latency_sync = Some(rows_with_latency(&[("put_c", 1.2, 2.3)]));

    let eval = judged(&cfg, &inputs);
    assert!(!eval.passed);
    assert!(eval.report.contains("p95 regressed 20.00%"));
}

#[test]
fn fails_when_latency_baseline_placeholder_becomes_measured() {
    let cfg = gate_config(&["put_c"], &["put_c"], 0);
    let mut inputs = put_c_inputs(1000.0, 1000.0, 1900.0);
    inputs.baseline_latency_sync = Some(rows_with_latency(&[("put_c", 0.0, 0.0)]));
    inputs.current_latency_sync = Some(rows_with_latency(&[("put_c", 1.0, 2.0)]));

    let eval = judged(&cfg, &inputs);
    assert!(!eval.passed);
    assert!(eval.report.contains("p95 regressed inf%"));
    assert!(eval.report.contains("p95 0.00 -> 1.00 ms (+inf%)"));
}

#[test]
fn csv_errors_come_in_the_order_of_the_table() {
    assert_eq!(csv_error(""), "missing CSV column \"Test\"");
    assert_eq!(csv_error("Test,OPS,95th\n"), "missing CSV column \"99th\"");
    assert_eq!(csv_error("Test,OPS,95th,99th\na,x,1 ms,1 ms\n"), "invalid OPS value \"x\"");
    assert_eq!(
        csv_error("Test,OPS,95th,99th\na,1,2 s,1 ms\n"),
        "expected duration in ms, got \"2 s\""
    );
    assert_eq!(
        csv_error("Test,OPS,95th,99th\na,1,1 ms,y ms\n"),
        "invalid duration value \"y\""
    );
    assert_eq!(
        csv_error("Test,OPS,95th,99th\na,1,1 ms,1 ms\n a ,2,1 ms,1 ms\n"),
        "duplicate row \"a\" found in CSV"
    );
    assert_eq!(
        csv_error("Test,OPS,95th,99th\na,1,1 ms,-2 ms\nb\n"),
        "invalid duration value \"-2\": must be a non-negative number"
    );
    assert!(csv_error("Test,OPS,95th,99th\na,1,1 ms,1 ms\nb\n").contains("found record with 1 fields"));
    assert!(csv_error("Test,OPS,95th,99th\n\u{e9}\n").contains("fields"));
}

#[test]
fn header_and_record_errors_stop_a_table() {
    let header: Result<Vec<String>, String> = Err("broken".to_string());
    let err = raw_table(&header, &Vec::new()).err().unwrap();
    assert_eq!(err.message(), "missing CSV header");

    let columns = ["Test", "OPS", "95th", "99th"].iter().map(|c| c.to_string()).collect();
    let short = vec!["a".to_string()];
    let table = raw_table(&Ok(columns), &vec![Ok(short), Err("later".to_string())]).ok().unwrap();
    assert!(table.rows.is_empty());
    assert_eq!(table.stop.as_deref(), Some("CSV row 2 has too few columns"));
}

#[test]
fn invalid_bytes_stop_a_table() {
    let err = read_table(b"Test,OPS,95th,99th\n\xff,1,1 ms,1 ms\n").ok().unwrap();
    assert!(err.stop.unwrap().contains("invalid utf-8"));
    assert_eq!(read_table(b"\xff\n").err().unwrap().message(), "missing CSV header");
}

#[test]
fn aliases_are_stable() {
    assert_eq!(row_alias(" [C]reate "), "put_c");
    assert_eq!(row_alias("[R]eads"), "get_c");
    assert_eq!(row_alias("[R]ead"), "get_c");
    assert_eq!(row_alias("[U]pdate"), "update_c");
    assert_eq!(row_alias("[D]elete"), "delete_c");
    assert_eq!(row_alias("[B]atch::  name  rest"), "name");
    assert_eq!(row_alias("[B]atch::"), "");
    assert_eq!(row_alias("other row"), "other row");
}

#[test]
fn labels_win_over_aliases() {
    let rows = rows_with_ops(&[("[C]reate", 1.0), ("put_c", 2.0)]);
    assert_eq!(value_of(&required_row(&rows, "put_c", "test").ok().unwrap().ops), 2.0);
    assert_eq!(
        required_row(&rows, "get_c", "test").err().unwrap().message(),
        "missing row \"get_c\" in test CSV"
    );
}

#[test]
fn gate_errors_come_in_the_order_of_the_report() {
    let cfg = gate_config(&["put_c"], &["put_c"], 0);
    let error = |inputs: &GateInputs| judge(&cfg, inputs).err().unwrap().message().to_string();

    let mut missing = put_c_inputs(1.0, 1.0, 1.0);
    missing.current_sync = rows_with_ops(&[]);
    assert_eq!(error(&missing), "missing row \"put_c\" in current sync CSV");

    let mut nosync = put_c_inputs(1.0, 1.0, 1.0);
    nosync.baseline_nosync = rows_with_ops(&[]);
    assert_eq!(error(&nosync), "missing row \"put_c\" in baseline no-sync CSV");

    let zero = put_c_inputs(1.0, 1.0, 0.0);
    assert_eq!(error(&zero), "cannot compute ratio against non-positive no-sync OPS 0");

    let mut fjall = put_c_inputs(1.0, 1.0, 1.0);
    fjall.fjall_sync = Some(rows_with_ops(&[]));
    fjall.baseline_latency_sync = Some(rows_with_ops(&[]));
    assert_eq!(error(&fjall), "missing row \"put_c\" in Fjall sync CSV");

    let mut lone = put_c_inputs(1.0, 1.0, 1.0);
    lone.baseline_latency_sync = Some(rows_with_ops(&[("put_c", 1.0)]));
    assert_eq!(
        error(&lone),
        "latency gate requires both --baseline-latency-sync and --current-latency-sync"
    );

    let few = gate_config(&["put_c"], &["put_c"], 1);
    let eval = judged(&few, &put_c_inputs(1000.0, 1000.0, 2000.0));
    assert!(!eval.passed);
    assert!(eval.report.ends_with(
        "\nResult: FAIL\n- only 0 sync/no-sync ratio rows improved; need 1\n"
    ));
}

#[test]
fn nothing_to_nothing_is_no_change() {
    let cfg = gate_config(&["put_c"], &[], 0);
    let eval = judged(&cfg, &put_c_inputs(0.0, 0.0, 2000.0));
    assert!(eval.passed);
    assert!(eval.report.contains("- put_c: 0.00 -> 0.00 OPS (+0.00%)\n"));
}

fn text_value(text: &str) -> JsonValue {
    JsonValue::Text { text: text.to_string() }
}

fn completed_phase() -> SteadyStatePhase {
    SteadyStatePhase { elapsed_ms: number(1.0), status: "completed".to_string() }
}

fn completed_phases() -> SteadyStatePhases {
    SteadyStatePhases {
        prepare: completed_phase(),
        warmup: completed_phase(),
        measure: completed_phase(),
        drain: completed_phase(),
        cleanup: completed_phase(),
    }
}

fn task(mix: &str, keys: &str) -> SteadyStateTask {
    SteadyStateTask {
        records: 100,
        clients: 1,
        threads: 1,
        warmup_secs: 0,
        measurement_secs: 1,
        latency_sample_every: 1,
        seed: 1,
        worker_seed_derivation: "splitmix64(seed ^ worker_index)".to_string(),
        operation_mix: mix.to_string(),
        operation_mix_period: 1000,
        key_selection: keys.to_string(),
        zipfian_exponent: number(0.99),
    }
}

fn steady_state_row(name: &str, ops: f64, p95_ms: f64, p99_ms: f64) -> SteadyStateRow {
    SteadyStateRow {
        name: name.to_string(),
        suite: "steady-state".to_string(),
        database: text_value("toykv"),
        status: "completed".to_string(),
        unsupported_reason: None,
        failure_reason: None,
        sync: true,
        task: task("read=1.000000", "scrambled_zipfian"),
        phases: completed_phases(),
        throughput: Some(SteadyStateThroughput {
            completed_operations: 100,
            ops_per_sec: figure(ops),
            per_second_windows: vec![number(ops)],
        }),
        latency: Some(SteadyStateLatency {
            sample_count: 100,
            p50_ms: number(p95_ms / 2.0),
            p95_ms: figure(p95_ms),
            p99_ms: figure(p99_ms),
        }),
        validation: Some(SteadyStateValidation {
            errors: 0,
            read_hits: 100,
            read_misses: 0,
            updates: 0,
            scan_count_errors: 0,
            observed_mix: "read=1.000000".to_string(),
            expected_mix_prefix: "read=100".to_string(),
        }),
        drain: Some(SteadyStateDrain { elapsed_ms: number(1.0), timed_out: false }),
    }
}

fn unsupported_steady_state_row(name: &str, reason: Option<&str>) -> SteadyStateRow {
    SteadyStateRow {
        name: name.to_string(),
        suite: "steady-state".to_string(),
        database: text_value("toykv"),
        status: "unsupported".to_string(),
        unsupported_reason: reason.map(str::to_string),
        failure_reason: None,
        sync: true,
        task: task("scan=1.000000", "uniform"),
        phases: completed_phases(),
        throughput: None,
        latency: None,
        validation: None,
        drain: None,
    }
}

fn idle_row() -> SteadyStateRow {
    let mut row = steady_state_row("idle", 0.0, 0.0, 0.0);
    row.throughput = None;
    row.latency = None;
    let validation = row.validation.as_mut().unwrap();
    validation.read_hits = 0;
    validation.observed_mix = "none".to_string();
    validation.expected_mix_prefix = "none".to_string();
    row
}

fn steady_state_rows(rows: Vec<SteadyStateRow>) -> SteadyStateRows {
    collect_steady_state_rows(rows).ok().expect("rows are distinct")
}

fn steady_state_cfg(rows: &[&str]) -> SteadyStateGateConfig {
    SteadyStateGateConfig {
        rows: rows.iter().map(|row| row.to_string()).collect(),
        optional_rows: Vec::new(),
        max_ops_regression_pct: figure(5.0),
        max_latency_regression_pct: figure(5.0),
        allow_database_mismatch: false,
    }
}

fn row_changes(inputs: &SteadyStateGateInputs, row: &str) -> RowChanges {
    let rows = (
        required_steady_state_row(&inputs.baseline, row, ""),
        required_steady_state_row(&inputs.current, row, ""),
    );
    let none = || quotient(1.0, 1.0);
    if let (Ok(b), Ok(c)) = rows {
        if let (Some(bt), Some(ct), Some(bl), Some(cl)) =
            (&b.throughput, &c.throughput, &b.latency, &c.latency)
        {
            return RowChanges {
                ops: quotient(value_of(&ct.ops_per_sec), value_of(&bt.ops_per_sec)),
                p95: quotient(value_of(&cl.p95_ms), value_of(&bl.p95_ms)),
                p99: quotient(value_of(&cl.p99_ms), value_of(&bl.p99_ms)),
            };
        }
    }
    RowChanges { ops: none(), p95: none(), p99: none() }
}

fn judge_steady_state(
    cfg: &SteadyStateGateConfig,
    baseline: Vec<SteadyStateRow>,
    current: Vec<SteadyStateRow>,
) -> Result<Evaluation, Failure> {
    let inputs = SteadyStateGateInputs {
        baseline: steady_state_rows(baseline),
        current: steady_state_rows(current),
    };
    let changes = cfg.rows.iter().map(|row| row_changes(&inputs, row)).collect();
    evaluate_steady_state(cfg, &inputs, &changes)
}

fn compared(
    cfg: &SteadyStateGateConfig,
    baseline: SteadyStateRow,
    current: SteadyStateRow,
) -> Evaluation {
    judge_steady_state(cfg, vec![baseline], vec![current]).ok().expect("gate evaluates")
}

fn balanced() -> SteadyStateRow {
    steady_state_row("balanced_zipfian", 1000.0, 2.0, 4.0)
}

fn report_of(current: SteadyStateRow) -> (bool, String) {
    let eval = compared(&steady_state_cfg(&["balanced_zipfian"]), balanced(), current);
    (eval.passed, eval.report)
}

#[test]
fn passes_valid_steady_state_gate() {
    let cfg = steady_state_cfg(&["balanced_zipfian"]);
    let eval =
        compared(&cfg, balanced(), steady_state_row("balanced_zipfian", 980.0, 2.05, 4.1));

    assert!(eval.passed);
    assert!(eval.report.contains("toykv OPS 1000.00 -> toykv OPS 980.00"));
    assert!(eval.report.contains("Result: PASS"));
    assert_eq!(
        eval.report,
        "ToyKV steady-state perf gate\n\nSteady-state row gate:\n\
         - balanced_zipfian: toykv OPS 1000.00 -> toykv OPS 980.00 (-2.00%), \
         toykv p95 2.00 -> toykv p95 2.05 ms (+2.50%), \
         toykv p99 4.00 -> toykv p99 4.10 ms (+2.50%)\n\
         \nResult: PASS\n"
    );
}

#[test]
fn fails_invalid_steady_state_gate() {
    let mut current = steady_state_row("balanced_zipfian", 900.0, 2.3, 4.5);
    current.validation.as_mut().unwrap().errors = 1;
    current.latency.as_mut().unwrap().sample_count = 0;
    current.drain.as_mut().unwrap().timed_out = true;

    let (passed, report) = report_of(current);

    assert!(!passed);
    assert!(report.contains("validation errors"));
    assert!(report.contains("missing latency samples"));
    assert!(report.contains("drain timed out"));
    assert!(report.contains("OPS regressed -10.00%"));
}

#[test]
fn optional_unsupported_steady_state_row_is_skipped() {
    let mut cfg = steady_state_cfg(&["range_scan_uniform"]);
    cfg.optional_rows = vec!["range_scan_uniform".to_string()];
    let row = || unsupported_steady_state_row("range_scan_uniform", Some("NotSupported"));

    let eval = compared(&cfg, row(), row());

    assert!(eval.passed);
    assert!(eval.report.contains("- range_scan_uniform: optional unsupported; skipped\n"));
}

#[test]
fn optional_unsupported_steady_state_row_requires_reason() {
    let mut cfg = steady_state_cfg(&["range_scan_uniform"]);
    cfg.optional_rows = vec!["range_scan_uniform".to_string()];
    let row = || unsupported_steady_state_row("range_scan_uniform", None);

    let eval = compared(&cfg, row(), row());

    assert!(!eval.passed);
    assert!(eval.report.contains("unsupported without a reason"));
}

#[test]
fn optional_unsupported_steady_state_row_must_match_both_artifacts() {
    let mut cfg = steady_state_cfg(&["range_scan_uniform"]);
    cfg.optional_rows = vec!["range_scan_uniform".to_string()];
    let unsupported = unsupported_steady_state_row("range_scan_uniform", Some("NotSupported"));

    let eval =
        compared(&cfg, steady_state_row("range_scan_uniform", 1000.0, 2.0, 4.0), unsupported);

    assert!(!eval.passed);
    assert!(eval.report.contains("optional unsupported state differs"));
}

#[test]
fn rejects_negative_steady_state_latency() {
    let (passed, report) = report_of(steady_state_row("balanced_zipfian", 1000.0, -1.0, 4.0));

    assert!(!passed);
    assert!(report.contains("invalid latency"));
}

#[test]
fn rejects_unordered_steady_state_latency() {
    let (passed, report) = report_of(steady_state_row("balanced_zipfian", 1000.0, 10.0, 4.0));

    assert!(!passed);
    assert!(report.contains("unordered latency quantiles"));
}

#[test]
fn rejects_invalid_steady_state_throughput_windows() {
    let mut current = balanced();
    current.throughput.as_mut().unwrap().per_second_windows = vec![number(-1.0)];

    let (passed, report) = report_of(current);

    assert!(!passed);
    assert!(report.contains("invalid throughput windows"));
}

#[test]
fn a_valid_artifact_passes_against_itself() {
    let rows = || {
        let mut extreme = steady_state_row("read_heavy_zipfian", f64::MAX, 0.0, f64::MAX);
        extreme.task.zipfian_exponent = number(0.0);
        steady_state_rows(vec![
            balanced(),
            extreme,
            idle_row(),
            unsupported_steady_state_row("range_scan_uniform", Some("NotSupported")),
        ])
    };
    let names = ["balanced_zipfian", "read_heavy_zipfian", "idle", "range_scan_uniform"];
    for limit in [0.0, 5.0, f64::INFINITY] {
        let mut cfg = steady_state_cfg(&names);
        cfg.optional_rows = vec!["range_scan_uniform".to_string()];
        cfg.max_ops_regression_pct = figure(limit);
        cfg.max_latency_regression_pct = figure(limit);
        let inputs = SteadyStateGateInputs { baseline: rows(), current: rows() };
        let any = || quotient(9.0, 3.0);
        let changes =
            names.iter().map(|_| RowChanges { ops: any(), p95: any(), p99: any() }).collect();
        let eval = evaluate_steady_state(&cfg, &inputs, &changes).ok().unwrap();
        assert!(eval.passed, "{}", eval.report);
        assert!(eval.report.ends_with("\nResult: PASS\n"));
        assert!(eval.report.contains("toykv OPS 1000.00 (+0.00%)"), "{}", eval.report);
    }
}

#[test]
fn rejects_mismatched_steady_state_metadata() {
    let mut current = balanced();
    current.database = text_value("rocksdb");
    current.sync = false;
    current.task.measurement_secs = 2;

    let (passed, report) = report_of(current);

    assert!(!passed);
    assert!(report.contains("database differs"));
    assert!(report.contains("sync setting differs"));
    assert!(report.contains("task metadata differs"));
}

#[test]
fn rejects_idle_rows_with_operations_or_metrics() {
    let cfg = steady_state_cfg(&["idle"]);
    let idle = || {
        let mut row = steady_state_row("idle", 0.0, 0.0, 0.0);
        row.throughput = None;
        row.latency = None;
        row.validation.as_mut().unwrap().observed_mix = "none".to_string();
        row.validation.as_mut().unwrap().expected_mix_prefix = "none".to_string();
        row
    };
    let mut current = idle();
    current.validation.as_mut().unwrap().read_hits = 1;
    current.throughput = Some(SteadyStateThroughput {
        completed_operations: 1,
        ops_per_sec: figure(1.0),
        per_second_windows: vec![number(1.0)],
    });

    let eval = compared(&cfg, idle(), current);

    assert!(!eval.passed);
    assert!(eval.report.contains("reports client operations"));
    assert!(eval.report.contains("must not report throughput or latency"));
}

#[test]
fn allows_database_mismatch_for_cross_backend_comparison() {
    let mut cfg = steady_state_cfg(&["balanced_zipfian"]);
    cfg.allow_database_mismatch = true;
    let mut current = balanced();
    current.database = text_value("rocksdb");

    let eval = compared(&cfg, balanced(), current);

    assert!(eval.passed);
    assert!(eval.report.contains("toykv OPS 1000.00 -> rocksdb OPS 1000.00"));
    assert!(eval.report.contains("Result: PASS"));
}

#[test]
fn rejects_empty_steady_state_database() {
    let mut current = balanced();
    current.database = text_value("");

    let (passed, report) = report_of(current);

    assert!(!passed);
    assert!(report.contains("invalid database field"));
}

#[test]
fn rejects_whitespace_steady_state_database() {
    let mut current = balanced();
    current.database = text_value("   ");

    let (passed, report) = report_of(current);

    assert!(!passed);
    assert!(report.contains("invalid database field"));
}

#[test]
fn optional_unsupported_rows_must_be_comparable() {
    let mut cfg = steady_state_cfg(&["range_scan_uniform"]);
    cfg.optional_rows = vec!["range_scan_uniform".to_string()];
    let baseline = unsupported_steady_state_row("range_scan_uniform", Some("NotSupported"));
    let mut current = unsupported_steady_state_row("range_scan_uniform", Some("NotSupported"));
    current.database = text_value("rocksdb");
    current.task.records = 999;

    let eval = compared(&cfg, baseline, current);

    assert!(!eval.passed);
    assert!(eval.report.contains("database differs"));
    assert!(eval.report.contains("task metadata differs"));
}

#[test]
fn rejects_completed_row_with_failed_phase() {
    let mut current = balanced();
    current.phases.cleanup.status = "failed".to_string();

    let (passed, report) = report_of(current);

    assert!(!passed);
    assert!(report.contains("completed row has non-completed cleanup phase"));
}

fn text_of(value: &serde_json::Value, key: &str) -> String {
    value[key].as_str().expect("a text").to_string()
}

fn count_of(value: &serde_json::Value, key: &str) -> u64 {
    value[key].as_u64().expect("a count")
}

fn share_of(value: &serde_json::Value, key: &str) -> f64 {
    value[key].as_f64().expect("a number")
}

fn phase_of(phases: &serde_json::Value, name: &str) -> SteadyStatePhase {
    let phase = &phases[name];
    SteadyStatePhase {
        elapsed_ms: number(share_of(phase, "elapsed_ms")),
        status: text_of(phase, "status"),
    }
}

fn row_of(row: &serde_json::Value) -> SteadyStateRow {
    let (task, phases) = (&row["task"], &row["phases"]);
    let (throughput, latency) = (&row["throughput"], &row["latency"]);
    let (validation, drain) = (&row["validation"], &row["drain"]);
    SteadyStateRow {
        name: text_of(row, "name"),
        suite: text_of(row, "suite"),
        database: text_value(&text_of(row, "database")),
        status: text_of(row, "status"),
        unsupported_reason: row["unsupported_reason"].as_str().map(str::to_string),
        failure_reason: row["failure_reason"].as_str().map(str::to_string),
        sync: row["sync"].as_bool().expect("a flag"),
        task: SteadyStateTask {
            records: count_of(task, "records") as u32,
            clients: count_of(task, "clients") as u32,
            threads: count_of(task, "threads") as u32,
            warmup_secs: count_of(task, "warmup_secs"),
            measurement_secs: count_of(task, "measurement_secs"),
            latency_sample_every: count_of(task, "latency_sample_every"),
            seed: count_of(task, "seed"),
            worker_seed_derivation: text_of(task, "worker_seed_derivation"),
            operation_mix: text_of(task, "operation_mix"),
            operation_mix_period: count_of(task, "operation_mix_period") as u32,
            key_selection: text_of(task, "key_selection"),
            zipfian_exponent: number(share_of(task, "zipfian_exponent")),
        },
        phases: SteadyStatePhases {
            prepare: phase_of(phases, "prepare"),
            warmup: phase_of(phases, "warmup"),
            measure: phase_of(phases, "measure"),
            drain: phase_of(phases, "drain"),
            cleanup: phase_of(phases, "cleanup"),
        },
        throughput: Some(SteadyStateThroughput {
            completed_operations: count_of(throughput, "completed_operations"),
            ops_per_sec: figure(share_of(throughput, "ops_per_sec")),
            per_second_windows: throughput["per_second_windows"]
                .as_array()
                .expect("a list")
                .iter()
                .map(|window| number(window.as_f64().expect("a number")))
                .collect(),
        }),
        latency: Some(SteadyStateLatency {
            sample_count: count_of(latency, "sample_count"),
            p50_ms: number(share_of(latency, "p50_ms")),
            p95_ms: figure(share_of(latency, "p95_ms")),
            p99_ms: figure(share_of(latency, "p99_ms")),
        }),
        validation: Some(SteadyStateValidation {
            errors: count_of(validation, "errors"),
            read_hits: count_of(validation, "read_hits"),
            read_misses: count_of(validation, "read_misses"),
            updates: count_of(validation, "updates"),
            scan_count_errors: count_of(validation, "scan_count_errors"),
            observed_mix: text_of(validation, "observed_mix"),
            expected_mix_prefix: text_of(validation, "expected_mix_prefix"),
        }),
        drain: Some(SteadyStateDrain {
            elapsed_ms: number(share_of(drain, "elapsed_ms")),
            timed_out: drain["timed_out"].as_bool().expect("a flag"),
        }),
    }
}

#[test]
fn parses_steady_state_json_rows() {
    let artifact: serde_json::Value =
        serde_json::from_slice(STEADY_STATE_JSON.as_bytes()).expect("parse JSON");
    let parsed: Vec<SteadyStateRow> =
        artifact["steady_state"].as_array().unwrap().iter().map(row_of).collect();
    let rows = steady_state_rows(parsed);
    let row = required_steady_state_row(&rows, "balanced_zipfian", "test").ok().unwrap();

    assert_eq!(row.status, "completed");
    assert_eq!(row.throughput.as_ref().unwrap().completed_operations, 100);
    assert_eq!(row.latency.as_ref().unwrap().sample_count, 100);

    let inputs = || artifact["steady_state"].as_array().unwrap().iter().map(row_of).collect();
    let eval = judge_steady_state(&steady_state_cfg(&["balanced_zipfian"]), inputs(), inputs());
    assert!(eval.ok().unwrap().passed);
}

#[test]
fn repeated_and_missing_rows_are_refused() {
    let err = collect_steady_state_rows(vec![balanced(), idle_row(), balanced()]).err().unwrap();
    assert_eq!(err.message(), "duplicate steady-state row \"balanced_zipfian\" found");

    let cfg = steady_state_cfg(&["idle"]);
    let err = judge_steady_state(&cfg, vec![balanced()], vec![idle_row()]).err().unwrap();
    assert_eq!(err.message(), "missing steady-state row \"idle\" in baseline JSON");
    let err = judge_steady_state(&cfg, vec![idle_row()], vec![balanced()]).err().unwrap();
    assert_eq!(err.message(), "missing steady-state row \"idle\" in current JSON");
}

#[test]
fn steady_state_settings_are_checked() {
    let error = |cfg: &SteadyStateGateConfig| {
        judge_steady_state(cfg, Vec::new(), Vec::new()).err().unwrap().message().to_string()
    };
    let mut cfg = steady_state_cfg(&[]);
    assert_eq!(error(&cfg), "at least one steady-state row is required");
    cfg.max_latency_regression_pct = figure(-0.5);
    assert_eq!(error(&cfg), "--max-latency-regression-pct cannot be negative");
    cfg.max_ops_regression_pct = figure(-0.5);
    assert_eq!(error(&cfg), "--max-ops-regression-pct cannot be negative");
}

#[test]
fn a_valid_idle_row_passes_with_its_own_line() {
    let eval = compared(&steady_state_cfg(&["idle"]), idle_row(), idle_row());
    assert!(eval.passed);
    assert!(eval.report.contains("- idle: no client operations; phase timings only\n"));

    let mut bad = idle_row();
    bad.drain = None;
    bad.validation.as_mut().unwrap().observed_mix = "read=1".to_string();
    let eval = compared(&steady_state_cfg(&["idle"]), idle_row(), bad);
    assert!(eval.report.contains("- current idle has invalid idle operation mix\n"));
    assert!(eval.report.contains("- current idle is missing drain\n"));

    let mut bare = idle_row();
    bare.validation = None;
    let eval = compared(&steady_state_cfg(&["idle"]), bare, idle_row());
    assert!(eval.report.contains("- baseline idle is missing validation\n"));
}

#[test]
fn findings_name_the_source_and_the_row() {
    let finds = |change: fn(&mut SteadyStateRow), finding: &str| {
        let mut current = balanced();
        change(&mut current);
        let (passed, report) = report_of(current);
        assert!(!passed);
        assert!(report.contains(&format!("- current balanced_zipfian {finding}\n")), "{report}");
    };
    finds(|r| r.suite = "other".to_string(), "has invalid suite \"other\"");
    finds(|r| r.database = JsonValue::Null, "has invalid database field");
    finds(|r| r.task.records = 0, "has zero records");
    finds(|r| r.task.threads = 0, "has invalid concurrency");
    finds(|r| r.task.measurement_secs = 0, "has zero measurement duration");
    finds(|r| r.task.key_selection = String::new(), "is missing task metadata");
    finds(|r| r.task.operation_mix_period = 0, "has zero operation mix period");
    finds(|r| r.task.zipfian_exponent = number(f64::NAN), "has invalid Zipfian exponent");
    finds(|r| r.phases.drain.elapsed_ms = number(-1.0), "has invalid drain phase time");
    finds(|r| r.phases.warmup.status = "odd".to_string(), "has invalid warmup phase status \"odd\"");
    finds(|r| r.status = "odd".to_string(), "has unknown status \"odd\"");
    finds(|r| r.status = "failed".to_string(), "failed: missing reason");
    finds(
        |r| {
            r.status = "failed".to_string();
            r.failure_reason = Some("disk".to_string());
        },
        "failed: disk",
    );
    finds(|r| r.status = "unsupported".to_string(), "is unsupported: missing reason");
    finds(|r| r.throughput = None, "is missing throughput");
    finds(
        |r| r.throughput.as_mut().unwrap().completed_operations = 0,
        "completed zero operations",
    );
    finds(|r| r.throughput.as_mut().unwrap().ops_per_sec = figure(0.0), "has invalid OPS");
    finds(
        |r| r.throughput.as_mut().unwrap().per_second_windows = Vec::new(),
        "is missing throughput windows",
    );
    finds(|r| r.validation = None, "is missing validation");
    finds(|r| r.validation.as_mut().unwrap().errors = 3, "has 3 validation errors");
    finds(
        |r| r.validation.as_mut().unwrap().observed_mix = String::new(),
        "is missing validation mix details",
    );
    finds(|r| r.latency = None, "is missing latency");
    finds(|r| r.drain = None, "is missing drain");
    finds(
        |r| r.drain.as_mut().unwrap().elapsed_ms = number(f64::INFINITY),
        "has invalid drain elapsed time",
    );
}

#[test]
fn latency_regressions_are_reported() {
    let (passed, report) = report_of(steady_state_row("balanced_zipfian", 1000.0, 2.2, 4.4));
    assert!(!passed);
    assert!(report.contains("- balanced_zipfian p95 regressed 10.00%, above 5.00%\n"));
    assert!(report.contains("- balanced_zipfian p99 regressed 10.00%, above 5.00%\n"));
}

#[test]
fn json_values_compare_by_their_parts() {
    let count = |n: u64| JsonValue::Number { number: JsonNumber::Positive { natural: n } };
    let share = |f: f64| JsonValue::Number { number: JsonNumber::Fraction { fraction: number(f) } };
    let object = |key: &str, value: JsonValue| JsonValue::Object {
        members: vec![Member { key: key.to_string(), value }],
    };
    assert!(count(1).same(&count(1)));
    assert!(!count(1).same(&share(1.0)));
    assert!(share(0.0).same(&share(-0.0)));
    assert!(JsonValue::Null.same(&JsonValue::Null));
    assert!(!JsonValue::Null.same(&JsonValue::Truth { truth: false }));
    let list = |n: u64| JsonValue::Array { items: vec![count(1), count(n)] };
    assert!(list(2).same(&list(2)));
    assert!(!list(2).same(&list(3)));
    assert!(object("a", list(2)).same(&object("a", list(2))));
    assert!(!object("a", list(2)).same(&object("b", list(2))));
}

fn no_args() -> GateArgs {
    GateArgs {
        baseline_sync: None,
        current_sync: None,
        baseline_nosync: None,
        current_nosync: None,
        baseline_steady_state_json: None,
        current_steady_state_json: None,
        steady_state_rows: Vec::new(),
        optional_steady_state_rows: Vec::new(),
        fjall_sync: None,
        baseline_latency_sync: None,
        current_latency_sync: None,
        rows: Vec::new(),
        ratio_rows: Vec::new(),
        max_sync_regression_pct: figure(5.0),
        max_ops_regression_pct: figure(5.0),
        allow_database_mismatch: false,
        min_ratio_improvements: 2,
        max_latency_regression_pct: figure(5.0),
    }
}

#[test]
fn steady_state_row_flag_selects_steady_state_mode() {
    let mut args = no_args();
    args.steady_state_rows = vec!["balanced_zipfian".to_string()];

    assert!(uses_steady_state_mode(&args));
    assert!(!uses_steady_state_mode(&no_args()));
}

#[test]
fn steady_state_mode_needs_both_artifacts_and_nothing_else() {
    let error = |args: GateArgs| steady_state_plan(args).err().unwrap().message().to_string();
    assert_eq!(
        error(no_args()),
        "--baseline-steady-state-json is required for steady-state mode"
    );
    let mut half = no_args();
    half.baseline_steady_state_json = Some("a".to_string());
    assert_eq!(error(half), "--current-steady-state-json is required for steady-state mode");
    let mut both = no_args();
    both.baseline_steady_state_json = Some("a".to_string());
    both.current_steady_state_json = Some("b".to_string());
    both.rows = vec!["put_c".to_string()];
    assert_eq!(error(both), "steady-state mode cannot be combined with legacy CRUD CSV inputs");

    let mut good = no_args();
    good.baseline_steady_state_json = Some("a".to_string());
    good.current_steady_state_json = Some("b".to_string());
    good.optional_steady_state_rows = vec!["idle".to_string()];
    let plan = steady_state_plan(good).ok().unwrap();
    assert_eq!((plan.baseline.as_str(), plan.current.as_str()), ("a", "b"));
    assert_eq!(plan.config.rows.len(), 9);
    assert_eq!(plan.config.rows[8], "idle");
}

#[test]
fn csv_mode_has_default_rows_and_asks_for_its_tables() {
    let mut args = no_args();
    args.current_sync = Some("now.csv".to_string());
    let plan = csv_plan(args);
    assert_eq!(plan.config.rows.len(), 5);
    assert_eq!(plan.config.ratio_rows, vec!["put_c", "batch_create_1000", "batch_delete_1000"]);
    let path = |input: CsvInput| csv_input(&plan.paths, input);
    assert_eq!(
        path(CsvInput::BaselineSync).err().unwrap().message(),
        "--baseline-sync is required"
    );
    assert_eq!(path(CsvInput::CurrentSync).ok().unwrap().as_deref(), Some("now.csv"));
    assert_eq!(
        path(CsvInput::CurrentNosync).err().unwrap().message(),
        "--current-nosync is required"
    );
    assert!(path(CsvInput::FjallSync).ok().unwrap().is_none());
    assert!(path(CsvInput::CurrentLatencySync).ok().unwrap().is_none());
}
