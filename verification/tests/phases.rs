use crud_bench::binary64::Float32;
use crud_bench::course::{Outcome, Run};
use crud_bench::failure::Failure;
use crud_bench::operation::{
    phase_marker_label, progress_label, progress_short_label, BatchOperation, BatchOperationType,
    BenchmarkOperation, Catalog, Index, Scan, ScanContext, ScanWithWrites, VectorHoldout,
    VectorIndexStrategy, VectorQuerySet, VectorQuerySpec,
};
use crud_bench::phase::{
    client_call, is_unsupported, may_wait, no_client, not_supported_error, settle_steps,
    start_marker, timeout_text, took_line, took_marker, ClientCall, Phase, PhaseStep, Progress, TookLine,
    WorkerEnd, CLIENT_TIMEOUT_NANOS,
};
use crud_bench::recorder::Recorder;
use crud_bench::run::{
    announcement, iterations, plan, vector_dimension, Action, Column, Guard, Heading, Marker,
    ScanWorkload, Slot, Step,
};
use crud_bench::settings::{Args, Benchmark, SteadyStatePreset, Suite};
use crud_bench::toykv::{
    check_reads, storage_options, Projection, ReadReply, ScanVisit, ToyKvClient,
};
use crud_bench::vector::{
    extract_vector_field, holdout_indices, read_skip_line, ArrayElement, FieldValue, QueryBuild,
};

fn args() -> Args {
    Args {
        privileged: false,
        image: None,
        endpoint: None,
        clients: 2,
        threads: 3,
        samples: 50,
        sync: true,
        pid: None,
        persisted: false,
        optimised: false,
        skip_deletes: false,
        skip_writes: false,
        operation_timeout: 300,
        emit_phase_markers: false,
        suite: Suite::Crud,
        bench: None,
        preset: SteadyStatePreset::Default,
        warmup_secs: None,
        measurement_secs: None,
        latency_sample_every: None,
        seed: 1,
        zipfian_exponent: crud_bench::binary64::Float64::from_bits(0.99f64.to_bits()),
        operation_mix: None,
        operation_mix_period: 1000,
    }
}

fn benchmark(change: fn(&mut Args)) -> Benchmark {
    let mut given = args();
    change(&mut given);
    Benchmark::new(&given, None)
}

fn scan(id: &str, name: &str, group: u32) -> Scan {
    Scan {
        id: id.to_string(),
        spec_group: group,
        multi_run_spec: false,
        name: name.to_string(),
        iterations: None,
        condition: None,
        order_by: None,
        start: None,
        limit: None,
        expect: None,
        projection: None,
        with_index: None,
        with_writes: Vec::new(),
        vector_query: None,
    }
}

fn index() -> Index {
    Index { skip: false, fields: vec!["number".to_string()], unique: None, index_type: None }
}

fn batch(name: &str, operation: BatchOperationType) -> BatchOperation {
    BatchOperation { name: name.to_string(), batch_size: 10, iterations: Some(7), operation }
}

fn vector_scan(strategy: VectorIndexStrategy) -> Scan {
    let mut scan = scan("knn", "nearest", 1);
    scan.vector_query = Some(VectorQuerySpec {
        field: "embedding".to_string(),
        index_strategy: strategy,
        holdout: VectorHoldout { count: 4, seed: 9 },
    });
    scan
}

fn columns() -> Vec<Column> {
    vec![
        Column { name: "embedding".to_string(), vector: None },
        Column { name: "embedding".to_string(), vector: Some(8) },
        Column { name: "other".to_string(), vector: Some(3) },
    ]
}

fn catalog() -> Catalog {
    let mut written = scan("all", "count", 0);
    written.with_writes = vec![ScanWithWrites { write_ratio_percent: 25 }];
    written.with_index = Some(index());
    Catalog {
        scans: vec![written, vector_scan(VectorIndexStrategy::Hnsw)],
        batches: vec![batch("batch_create_10", BatchOperationType::Create)],
    }
}

const NO_INDEX: ScanContext = ScanContext::WithoutIndex;
const INDEXED: ScanContext = ScanContext::WithIndex;

#[test]
fn labels_name_the_operation() {
    let catalog = catalog();
    let label = |op: BenchmarkOperation| op.label(&catalog);
    assert_eq!(label(BenchmarkOperation::Create), "Create");
    assert_eq!(label(BenchmarkOperation::Scan { scan: 0, context: INDEXED }), "Scan :: indexed");
    assert_eq!(
        label(BenchmarkOperation::VectorScan { scan: 1, context: NO_INDEX }),
        "VectorScan :: no-index"
    );
    assert_eq!(
        label(BenchmarkOperation::ScanWithWrites { scan: 0, context: NO_INDEX, writes: 0 }),
        "Scan :: no-index, combined workload (ratio 25%)"
    );
    assert_eq!(label(BenchmarkOperation::BuildIndex { scan: 0 }), "BuildIndex");
    assert_eq!(label(BenchmarkOperation::BatchCreate { batch: 0 }), "BatchCreate::batch_create_10");
}

#[test]
fn markers_tell_runs_apart() {
    let catalog = catalog();
    let marker = |op: BenchmarkOperation| phase_marker_label(&op, &catalog);
    assert_eq!(
        marker(BenchmarkOperation::Scan { scan: 0, context: NO_INDEX }),
        "Scan :: all :: count :: no-index"
    );
    assert_eq!(
        marker(BenchmarkOperation::ScanWithWrites { scan: 0, context: INDEXED, writes: 0 }),
        "Scan :: all :: count :: indexed, writes 25%"
    );
    assert_eq!(
        marker(BenchmarkOperation::BuildIndex { scan: 0 }),
        "BuildIndex :: all :: count"
    );
    assert_eq!(
        marker(BenchmarkOperation::RemoveIndex { scan: 1 }),
        "RemoveIndex :: knn :: nearest"
    );
    assert_eq!(
        marker(BenchmarkOperation::VectorScan { scan: 1, context: NO_INDEX }),
        "VectorScan :: knn :: nearest :: no-index"
    );
    assert_eq!(
        marker(BenchmarkOperation::BuildVectorIndex { scan: 1, dim: 8 }),
        "BuildVectorIndex :: knn :: nearest"
    );
    assert_eq!(marker(BenchmarkOperation::Delete), "Delete");
    let op = BenchmarkOperation::Read;
    assert_eq!(start_marker(&op, &catalog, true).as_deref(), Some("Read starting"));
    assert!(start_marker(&op, &catalog, false).is_none());
}

#[test]
fn no_two_phases_share_a_marker() {
    let mut catalog = catalog();
    catalog.scans.push(scan("all", "select", 0));
    catalog.scans.push(scan("alls", "count", 0));
    catalog.scans[0].with_writes.push(ScanWithWrites { write_ratio_percent: 5 });
    catalog.batches.push(batch("batch_read_10", BatchOperationType::Read));
    let mut all = vec![
        BenchmarkOperation::Create,
        BenchmarkOperation::Read,
        BenchmarkOperation::Update,
        BenchmarkOperation::Delete,
    ];
    for n in 0..catalog.scans.len() {
        for context in [NO_INDEX, INDEXED] {
            all.push(BenchmarkOperation::Scan { scan: n, context });
            all.push(BenchmarkOperation::VectorScan { scan: n, context });
            for writes in 0..catalog.scans[n].with_writes.len() {
                all.push(BenchmarkOperation::ScanWithWrites { scan: n, context, writes });
            }
        }
        all.push(BenchmarkOperation::BuildIndex { scan: n });
        all.push(BenchmarkOperation::BuildVectorIndex { scan: n, dim: 8 });
        all.push(BenchmarkOperation::RemoveIndex { scan: n });
    }
    for n in 0..catalog.batches.len() {
        all.push(BenchmarkOperation::BatchCreate { batch: n });
        all.push(BenchmarkOperation::BatchRead { batch: n });
        all.push(BenchmarkOperation::BatchUpdate { batch: n });
        all.push(BenchmarkOperation::BatchDelete { batch: n });
    }
    let labels: Vec<String> = all.iter().map(|op| phase_marker_label(op, &catalog)).collect();
    for (i, label) in labels.iter().enumerate() {
        assert!(!labels[..i].contains(label), "{label}");
    }
}

#[test]
fn progress_labels_are_cut_to_fit() {
    let mut catalog = catalog();
    let op = BenchmarkOperation::VectorScan { scan: 1, context: INDEXED };
    assert_eq!(progress_short_label(&op, &catalog), "vector knn :: indexed");
    let writes = BenchmarkOperation::ScanWithWrites { scan: 0, context: INDEXED, writes: 0 };
    assert_eq!(progress_short_label(&writes, &catalog), "indexed, writes 25%");

    let create = BenchmarkOperation::BatchCreate { batch: 0 };
    catalog.batches[0].name = "n".repeat(59);
    assert_eq!(progress_short_label(&create, &catalog), format!("BatchCreate::{}", "n".repeat(59)));
    catalog.batches[0].name = "n".repeat(60);
    assert_eq!(progress_label(&create, &catalog).len(), 73);
    assert_eq!(
        progress_short_label(&create, &catalog),
        format!("BatchCreate::{}\u{2026}", "n".repeat(58))
    );
}

#[test]
fn samples_are_handed_out_once() {
    let mut progress = Progress::new();
    assert_eq!((0..4).map(|_| progress.claim(3)).collect::<Vec<_>>(), [Some(0), Some(1), Some(2), None]);
    assert_eq!(progress.finish_sample(3), 1);
    assert_eq!(progress.finish_sample(3), 2);

    assert!(!progress.worker_stopped("NotSupported"));
    assert!(progress.skip && !progress.error);
    assert!(progress.worker_stopped("disk full"));
    assert!(progress.error);
    assert_eq!(progress.claim(100), None);
}

fn said(progress: &Progress, emit: bool) -> Vec<String> {
    let catalog = catalog();
    let op = BenchmarkOperation::Scan { scan: 0, context: INDEXED };
    let end = progress.finish(&op, &catalog, emit, "3s").ok().expect("the phase ends");
    assert_eq!(end.kept, !progress.skip);
    end.steps
        .into_iter()
        .map(|step| match step {
            PhaseStep::Took { .. } => "took".to_string(),
            PhaseStep::Say { line } => line,
            PhaseStep::Settle => "settle".to_string(),
        })
        .collect()
}

#[test]
fn the_server_settles_before_it_is_idle() {
    let said = |emit: bool| -> Vec<String> {
        settle_steps(emit)
            .into_iter()
            .map(|step| match step {
                PhaseStep::Took { .. } => "took".to_string(),
                PhaseStep::Say { line } => line,
                PhaseStep::Settle => "settle".to_string(),
            })
            .collect()
    };
    assert_eq!(said(true), vec!["settle", "Server idle"]);
    assert_eq!(said(false), vec!["settle"]);
}

#[test]
fn a_phase_tells_its_time_before_the_server_is_idle() {
    let mut progress = Progress::new();
    let marker = "Scan :: all :: count :: indexed took 3s";
    assert_eq!(said(&progress, true), vec!["took", marker, "settle", "Server idle"]);
    assert_eq!(said(&progress, false), vec!["took", "settle"]);
    progress.worker_stopped("NotSupported");
    assert_eq!(said(&progress, true), vec!["took", marker]);
    progress.worker_stopped("disk full");
    let op = BenchmarkOperation::Read;
    let err = progress.finish(&op, &catalog(), true, "3s").err().unwrap();
    assert_eq!(err.message(), "Task failure");
}

#[test]
fn only_one_text_means_unsupported() {
    assert!(is_unsupported(not_supported_error()));
    assert!(!is_unsupported("NotSupported: vectors"));
    assert!(!is_unsupported(""));
}

#[test]
fn operations_become_client_calls() {
    let call = |op| client_call(op, 5, 50, 3);
    assert_eq!(call(BenchmarkOperation::Create), ClientCall::Create { key: 5 });
    assert_eq!(call(BenchmarkOperation::Delete), ClientCall::Delete { key: 5 });
    assert_eq!(
        call(BenchmarkOperation::VectorScan { scan: 1, context: INDEXED }),
        ClientCall::VectorScan { scan: 1, context: INDEXED, query: 2 }
    );
    assert_eq!(
        call(BenchmarkOperation::ScanWithWrites { scan: 0, context: NO_INDEX, writes: 0 }),
        ClientCall::ScanWithWrites { scan: 0, context: NO_INDEX, writes: 0, sample: 5, samples: 50 }
    );
    assert_eq!(
        call(BenchmarkOperation::RemoveIndex { scan: 0 }),
        ClientCall::DropIndex { scan: 0 }
    );
    assert_eq!(
        call(BenchmarkOperation::BatchUpdate { batch: 0 }),
        ClientCall::BatchUpdate { batch: 0, sample: 5 }
    );
}

#[test]
fn failures_name_the_phase() {
    let catalog = catalog();
    assert_eq!(
        timeout_text(&BenchmarkOperation::Read, &catalog, 300),
        "Read did not complete within 300s"
    );
    assert_eq!(
        timeout_text(&BenchmarkOperation::Read, &catalog, 0),
        "Read did not complete within 0ns"
    );
    let join = |end: WorkerEnd| Phase::new(BenchmarkOperation::Update).join(end, &catalog);
    assert_eq!(join(WorkerEnd::Failed).unwrap_err().message(), "Update worker failed");
    assert_eq!(join(WorkerEnd::Lost).unwrap_err().message(), "Update task failed");
    assert!(join(WorkerEnd::Skipped).is_ok());
    assert_eq!(no_client().message(), "Can't create the client");
    assert!(may_wait(CLIENT_TIMEOUT_NANOS - 1));
    assert!(!may_wait(CLIENT_TIMEOUT_NANOS));
}

#[test]
fn latencies_of_all_workers_are_merged() {
    let catalog = catalog();
    let mut phase = Phase::new(BenchmarkOperation::Read);
    let mut first = Recorder::new();
    first.record(7);
    first.record(2_049);
    let mut second = Recorder::new();
    second.record(7);
    second.record(1_000_000);
    assert!(phase.join(WorkerEnd::Finished { recorder: first }, &catalog).is_ok());
    assert!(phase.join(WorkerEnd::Finished { recorder: second }, &catalog).is_ok());
    assert_eq!(phase.recorder.counts(), vec![(7, 2), (2_049, 1), (1_000_447, 1)]);
}

#[test]
fn recorders_keep_three_digits_of_every_value() {
    let mut recorder = Recorder::new();
    assert!(recorder.counts().is_empty());
    for value in [0, 1, 2_047, 2_048, 2_049, 4_095, 4_096, 4_099, u64::MAX] {
        recorder.record(value);
    }
    assert_eq!(
        recorder.counts(),
        vec![(0, 1), (1, 1), (2_047, 1), (2_049, 2), (4_095, 1), (4_099, 2), (u64::MAX - 1, 1)]
    );
    let mut other = Recorder::new();
    other.record(u64::MAX);
    other.merge(&recorder);
    recorder.merge(&other);
    assert_eq!(recorder.counts()[3..], [(2_049, 4), (4_095, 2), (4_099, 4), (u64::MAX - 1, 3)]);
}

#[test]
fn took_lines_follow_the_kind_of_phase() {
    let catalog = catalog();
    assert!(matches!(
        took_line(&BenchmarkOperation::Scan { scan: 0, context: INDEXED }, &catalog),
        TookLine::Scan { slug: "indexed", write_ratio_percent: None }
    ));
    assert!(matches!(
        took_line(
            &BenchmarkOperation::ScanWithWrites { scan: 0, context: NO_INDEX, writes: 0 },
            &catalog
        ),
        TookLine::Scan { slug: "no-index", write_ratio_percent: Some(25) }
    ));
    match took_line(&BenchmarkOperation::Create, &catalog) {
        TookLine::Head { label } => assert_eq!(label, "Create"),
        TookLine::Scan { .. } => panic!("a create is no scan"),
    }
    let build = BenchmarkOperation::BuildIndex { scan: 0 };
    assert_eq!(
        took_marker(&build, &catalog, true, "3s").as_deref(),
        Some("BuildIndex :: all :: count took 3s")
    );
    assert!(took_marker(&build, &catalog, false, "3s").is_none());
    let knn = BenchmarkOperation::VectorScan { scan: 1, context: INDEXED };
    assert!(took_marker(&knn, &catalog, true, "3s").is_none());
    let vectors = BenchmarkOperation::BuildVectorIndex { scan: 1, dim: 8 };
    assert!(took_marker(&vectors, &catalog, true, "3s").is_none());
    assert!(took_marker(&BenchmarkOperation::Create, &catalog, true, "3s").is_none());
}

fn always(action: Action, slot: Slot) -> Step {
    Step { guard: Guard::Always, action, slot }
}

fn operate(operation: BenchmarkOperation, samples: u32, slot: Slot) -> Step {
    always(Action::Operate { operation, lone: false, samples }, slot)
}

fn plain(action: Action) -> Step {
    always(action, Slot::Nowhere)
}

fn empty() -> Catalog {
    Catalog { scans: Vec::new(), batches: Vec::new() }
}

#[test]
fn the_plain_run_goes_from_create_to_delete() {
    assert_eq!(
        plan(&benchmark(|_| {}), &empty(), &columns(), false),
        vec![
            plain(Action::Announce),
            plain(Action::Startup),
            plain(Action::Connect),
            operate(BenchmarkOperation::Create, 50, Slot::Creates),
            operate(BenchmarkOperation::Read, 50, Slot::Reads),
            operate(BenchmarkOperation::Update, 50, Slot::Updates),
            plain(Action::Head { heading: Heading::Delete }),
            operate(BenchmarkOperation::Delete, 50, Slot::Deletes),
            plain(Action::Shutdown),
        ]
    );
    assert_eq!(announcement(2), "Setting up the datastore with 2 clients");
    assert_eq!(Marker::BenchmarkStarting.text(), "Benchmark starting");
    assert_eq!(Marker::ServerIdle.text(), "Server idle");
}

#[test]
fn skipped_writes_leave_only_reads() {
    let run = plan(&benchmark(|a| a.skip_writes = true), &empty(), &columns(), false);
    assert_eq!(
        run[3..],
        [
            always(Action::Nothing, Slot::Creates),
            operate(BenchmarkOperation::Read, 50, Slot::Reads),
            always(Action::Nothing, Slot::Updates),
            plain(Action::Head { heading: Heading::DeleteSkipped }),
            always(Action::Nothing, Slot::Deletes),
            plain(Action::Shutdown),
        ]
    );
    assert_eq!(Heading::DeleteSkipped.text(&empty()), "Delete (skipped)");
    let kept = plan(&benchmark(|a| a.skip_deletes = true), &empty(), &columns(), false);
    assert!(kept.contains(&operate(BenchmarkOperation::Update, 50, Slot::Updates)));
    assert!(!kept.contains(&operate(BenchmarkOperation::Delete, 50, Slot::Deletes)));
}

#[test]
fn markers_and_compaction_are_added_where_asked_for() {
    let run = plan(&benchmark(|a| a.emit_phase_markers = true), &empty(), &columns(), true);
    let texts: Vec<&str> = run
        .iter()
        .filter_map(|step| match step.action {
            Action::Mark { marker } => Some(marker.text()),
            Action::Compact => Some("compact"),
            Action::Operate { .. } => Some("operate"),
            _ => None,
        })
        .collect();
    let compaction = ["Compaction starting", "compact", "Server idle"];
    let mut expected = vec!["Benchmark starting"];
    for _ in 0..3 {
        expected.push("operate");
        expected.extend(compaction);
    }
    expected.extend(compaction);
    expected.push("operate");
    expected.extend(compaction);
    expected.push("Benchmark complete");
    assert_eq!(texts, expected);
}

#[test]
fn the_steady_state_suite_replaces_the_phases() {
    let run = plan(
        &benchmark(|a| {
            a.suite = Suite::SteadyState;
            a.emit_phase_markers = true;
        }),
        &catalog(),
        &columns(),
        true,
    );
    let actions: Vec<Action> = run.iter().map(|step| step.action).collect();
    assert_eq!(
        actions,
        vec![
            Action::Announce,
            Action::Startup,
            Action::Connect,
            Action::Mark { marker: Marker::BenchmarkStarting },
            Action::SteadyState,
            Action::Mark { marker: Marker::BenchmarkComplete },
            Action::Shutdown,
        ]
    );
}

fn operations(run: &mut Run<u32>, supports: fn(&BenchmarkOperation) -> bool) -> Vec<BenchmarkOperation> {
    let mut seen = Vec::new();
    while let Some(step) = run.next().expect("the run goes on") {
        let outcome = match step.action {
            Action::Operate { operation, .. } => {
                seen.push(operation);
                let result = if supports(&operation) { Some(seen.len() as u32) } else { None };
                Outcome::Measured { result }
            }
            Action::Queries { .. } => Outcome::Found { found: true },
            _ => Outcome::Done,
        };
        run.report(outcome);
    }
    seen
}

fn scans_only(given: &mut Args) {
    given.skip_deletes = true;
}

#[test]
fn indexed_scans_run_before_and_after_the_index() {
    let mut listed = catalog();
    listed.scans.truncate(1);
    listed.batches.clear();
    let mut run = Run::new(&benchmark(scans_only), listed, &columns(), false);
    let seen = operations(&mut run, |_| true);
    assert_eq!(
        seen[3..],
        [
            BenchmarkOperation::Scan { scan: 0, context: NO_INDEX },
            BenchmarkOperation::ScanWithWrites { scan: 0, context: NO_INDEX, writes: 0 },
            BenchmarkOperation::BuildIndex { scan: 0 },
            BenchmarkOperation::Scan { scan: 0, context: INDEXED },
            BenchmarkOperation::ScanWithWrites { scan: 0, context: INDEXED, writes: 0 },
            BenchmarkOperation::RemoveIndex { scan: 0 },
        ]
    );
    assert_eq!((run.creates, run.reads, run.updates, run.deletes), (Some(1), Some(2), Some(3), None));
    let result = &run.scans[0];
    assert_eq!((result.id.as_str(), result.name.as_str(), result.iterations), ("all", "count", 50));
    assert_eq!((result.index_build, result.index_remove), (Some(6), Some(9)));
    let rows: Vec<_> = result.runs.iter().map(|r| (r.workload, r.indexed, r.result)).collect();
    let mixed = ScanWorkload::ReadWrite { write_ratio_percent: 25 };
    assert_eq!(
        rows,
        vec![
            (ScanWorkload::Read, false, Some(4)),
            (mixed, false, Some(5)),
            (ScanWorkload::Read, true, Some(7)),
            (mixed, true, Some(8)),
        ]
    );
}

#[test]
fn rows_stay_aligned_without_an_index() {
    let mut listed = catalog();
    listed.scans.truncate(1);
    listed.batches.clear();
    let mut run = Run::new(&benchmark(scans_only), listed, &columns(), false);
    let seen = operations(&mut run, |op| !matches!(op, BenchmarkOperation::BuildIndex { .. }));
    assert_eq!(seen.len(), 6);
    let result = &run.scans[0];
    assert_eq!((result.index_build, result.index_remove), (None, None));
    let rows: Vec<_> = result.runs.iter().map(|r| (r.indexed, r.result)).collect();
    assert_eq!(rows, vec![(false, Some(4)), (false, Some(5)), (true, None), (true, None)]);
}

#[test]
fn vector_scans_need_their_index_only_by_strategy() {
    let builds = |op: &BenchmarkOperation| !matches!(op, BenchmarkOperation::BuildVectorIndex { .. });
    for (strategy, indexed, legs) in [
        (VectorIndexStrategy::Hnsw, true, 4),
        (VectorIndexStrategy::Bruteforce, false, 5),
    ] {
        let listed = Catalog { scans: vec![vector_scan(strategy)], batches: Vec::new() };
        let mut run = Run::new(&benchmark(scans_only), listed, &columns(), false);
        let seen = operations(&mut run, builds);
        assert_eq!(seen[3], BenchmarkOperation::BuildVectorIndex { scan: 0, dim: 8 });
        assert_eq!(seen.len(), legs);
        let row = &run.scans[0].runs[0];
        assert_eq!((row.indexed, row.result.is_some()), (indexed, !indexed));
        assert!(run.scans[0].index_remove.is_none());
    }
}

#[test]
fn vector_scans_without_queries_keep_an_empty_row() {
    let listed =
        Catalog { scans: vec![vector_scan(VectorIndexStrategy::DiskAnn)], batches: Vec::new() };
    let mut run: Run<u32> = Run::new(&benchmark(scans_only), listed, &columns(), false);
    let mut operated = 0;
    while let Some(step) = run.next().unwrap() {
        run.report(match step.action {
            Action::Operate { .. } => {
                operated += 1;
                Outcome::Measured { result: Some(1) }
            }
            Action::Queries { .. } => Outcome::Found { found: false },
            _ => Outcome::Done,
        });
    }
    assert_eq!(operated, 3);
    assert_eq!(run.scans[0].runs.len(), 1);
    assert!(run.scans[0].runs[0].indexed && run.scans[0].runs[0].result.is_none());
}

#[test]
fn vector_fields_must_be_vector_columns() {
    assert_eq!(vector_dimension(&columns(), "embedding"), Some(8));
    assert_eq!(vector_dimension(&columns(), "nothing"), None);
    let listed =
        Catalog { scans: vec![vector_scan(VectorIndexStrategy::Hnsw)], batches: Vec::new() };
    let mut run: Run<u32> = Run::new(&benchmark(scans_only), listed, &Vec::new(), false);
    let failure: Failure = loop {
        match run.next() {
            Err(failure) => break failure,
            Ok(None) => panic!("the run ended"),
            Ok(Some(step)) => run.report(match step.action {
                Action::Operate { .. } => Outcome::Measured { result: None },
                _ => Outcome::Done,
            }),
        }
    };
    assert_eq!(
        failure.message(),
        "scan `knn`: vector_query.field `embedding` must be a `vector:<dim>` column in the schema"
            .replace("`knn`", "`nearest`")
    );
}

#[test]
fn headings_follow_groups_and_runs() {
    let mut listed = empty();
    for (group, multi, name) in
        [(0, false, "a"), (1, true, "b"), (1, true, "b"), (1, true, "c"), (2, false, "c")]
    {
        let mut scan = scan("id", name, group);
        scan.multi_run_spec = multi;
        listed.scans.push(scan);
    }
    let run = plan(&benchmark(|_| {}), &listed, &columns(), false);
    let headings: Vec<Heading> = run
        .iter()
        .filter_map(|step| match step.action {
            Action::Head { heading } => Some(heading),
            _ => None,
        })
        .collect();
    assert_eq!(
        headings,
        vec![
            Heading::Scan { scan: 0 },
            Heading::Scan { scan: 1 },
            Heading::RunName { scan: 1 },
            Heading::RunName { scan: 3 },
            Heading::Scan { scan: 4 },
            Heading::Delete,
        ]
    );
    assert_eq!(headings[0].text(&listed), "Scan \u{b7} id");
    assert_eq!(headings[2].text(&listed), "b");
}

#[test]
fn batches_are_kept_or_skipped() {
    let kinds = [
        BatchOperationType::Create,
        BatchOperationType::Read,
        BatchOperationType::Update,
        BatchOperationType::Delete,
    ];
    let run_with = |change: fn(&mut Args)| {
        let mut listed = empty();
        listed.batches = kinds.iter().map(|kind| batch("b", *kind)).collect();
        let mut run = Run::new(&benchmark(change), listed, &columns(), false);
        operations(&mut run, |_| true);
        run.batches
            .iter()
            .map(|b| {
                assert_eq!((b.name.as_str(), b.iterations, b.groups), ("b", 7, 10));
                b.result.is_some()
            })
            .collect::<Vec<bool>>()
    };
    assert_eq!(run_with(|_| {}), vec![true, true, true, true]);
    assert_eq!(run_with(|a| a.skip_deletes = true), vec![true, true, true, false]);
    assert_eq!(run_with(|a| a.skip_writes = true), vec![false, true, false, false]);
}

#[test]
fn iterations_default_to_the_samples() {
    assert_eq!(iterations(50, None), 50);
    assert_eq!(iterations(50, Some(7)), 7);
}

#[test]
fn held_out_records_are_among_the_samples() {
    let picked = holdout_indices(1000, 64, 42);
    assert_eq!(picked.len(), 64);
    assert!(picked.iter().all(|index| *index < 1000));
    assert!(picked.iter().any(|index| *index != picked[0]));
    assert_eq!(picked, holdout_indices(1000, 64, 42));
    assert_ne!(picked, holdout_indices(1000, 64, 43));
    assert_eq!(picked[..10], holdout_indices(1000, 10, 42));
    assert_eq!(holdout_indices(3, 64, 1).len(), 3);
    assert!(holdout_indices(0, 64, 1).is_empty());
}

fn float32(value: f32) -> Float32 {
    Float32 { bits: value.to_bits() }
}

fn values(vector: &[Float32]) -> Vec<f32> {
    vector.iter().map(|value| f32::from_bits(value.bits)).collect()
}

#[test]
fn vectors_are_read_from_three_shapes() {
    let numbers = [1.5f32, -2.0, 0.25];
    let packed: Vec<u8> = numbers.iter().flat_map(|value| value.to_le_bytes()).collect();
    let shapes = [
        FieldValue::FloatVector { vector: numbers.iter().map(|v| float32(*v)).collect() },
        FieldValue::Array {
            elements: numbers.iter().map(|v| ArrayElement::Number { value: float32(*v) }).collect(),
        },
        FieldValue::Bytes { bytes: packed.clone() },
    ];
    for shape in &shapes {
        assert_eq!(values(&extract_vector_field(Some(shape)).ok().unwrap()), numbers);
    }
    let refused = [
        FieldValue::Other,
        FieldValue::Array { elements: vec![ArrayElement::Other] },
        FieldValue::Bytes { bytes: packed[1..].to_vec() },
    ];
    for shape in &refused {
        assert_eq!(extract_vector_field(Some(shape)).err().unwrap().message(), "NotSupported");
    }
    assert_eq!(extract_vector_field(None).err().unwrap().message(), "NotSupported");
}

#[test]
fn query_sets_wrap_around() {
    let mut build = QueryBuild::new(100, 2, 5);
    let vector = |x: f32| FieldValue::FloatVector { vector: vec![float32(x)] };
    for x in [1.0, 2.0] {
        assert!(build.next().is_some());
        assert!(build.read(Some(&vector(x)), "knn").is_ok());
    }
    assert!(build.next().is_none());
    let set: VectorQuerySet = build.finish("knn").ok().unwrap();
    assert_eq!(values(set.pick(0)), [1.0]);
    assert_eq!(values(set.pick(3)), [2.0]);

    let mut unreadable = QueryBuild::new(100, 2, 5);
    assert_eq!(
        unreadable.read(None, "knn").unwrap_err(),
        "vector holdout: skipping scan `knn` (extract: NotSupported)"
    );
    assert_eq!(
        QueryBuild::new(0, 2, 5).finish("knn").err().unwrap(),
        "vector holdout: skipping scan `knn` (empty query set)"
    );
    assert_eq!(
        read_skip_line("knn", "refused: closed"),
        "vector holdout: skipping scan `knn` (read: refused: closed)"
    );
}

#[test]
fn toykv_flags_hold_operations_back() {
    let client = |reads_only, preserve_db, load_only| ToyKvClient { reads_only, preserve_db, load_only };
    assert!(client(false, false, false).writes() && client(false, false, false).deletes());
    assert!(!client(true, false, false).writes() && !client(true, false, false).deletes());
    assert!(client(false, false, true).writes() && !client(false, false, true).deletes());
    assert!(client(false, false, true).removes_directory());
    assert!(!client(false, true, false).removes_directory());
}

#[test]
fn toykv_scans_by_position() {
    let client = ToyKvClient { reads_only: false, preserve_db: false, load_only: false };
    let mut asked = scan("all", "count", 0);
    assert_eq!(client.scan_start(&asked).unwrap(), 0);
    assert_eq!(
        client.do_scan(&asked, Projection::Count, 0),
        ScanVisit::Count { limit: usize::MAX }
    );
    asked.start = Some(5);
    asked.limit = Some(10);
    assert_eq!(client.scan_start(&asked).unwrap(), 5);
    assert_eq!(client.do_scan(&asked, Projection::Id, 5), ScanVisit::Keys { limit: 10 });
    assert_eq!(client.do_scan(&asked, Projection::Full, 5), ScanVisit::Values { limit: 10 });
    assert_eq!(client.do_scan(&asked, Projection::Full, 4), ScanVisit::Nothing);
    asked.condition = Some("x > 1".to_string());
    assert_eq!(client.scan_start(&asked).unwrap_err().message(), "NotSupported");
}

#[test]
fn toykv_batch_reads_need_every_key() {
    let failed = |reason: &str| ReadReply::Failed { reason: reason.to_string() };
    assert!(check_reads(&vec![ReadReply::Found, ReadReply::Found]).is_ok());
    assert_eq!(
        check_reads(&vec![ReadReply::Found, ReadReply::Missing, failed("later")])
            .unwrap_err()
            .message(),
        "key should exist"
    );
    assert_eq!(check_reads(&vec![failed("io"), ReadReply::Missing]).unwrap_err().message(), "io");
}

#[test]
fn toykv_storage_follows_the_sync_flag() {
    let synced = storage_options(true);
    assert!(synced.enable_wal && !storage_options(false).enable_wal);
    assert_eq!(synced.block_size, 65_536);
    assert_eq!(synced.target_sst_size, 268_435_456);
    assert_eq!(synced.min_value_size, 4_096);
    assert_eq!(synced.block_cache_capacity, 524_288);
}
