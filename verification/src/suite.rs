//! The course of a steady-state row, and of the suite of rows.
use crate::binary64::Float64;
use crate::config::SteadyStateConfig;
use crate::phase;
use crate::phase::is_unsupported;
use crate::row;
use crate::row::{
    completed_phase, failed_steady_state_row, row_verdict, unsupported_steady_state_row, Reason,
    RowVerdict, SteadyStateDrain, SteadyStateLatency, SteadyStatePhase, SteadyStatePhases,
    SteadyStateResult, SteadyStateStatus, SteadyStateThroughput, SteadyStateValidation,
};
use crate::settings::Benchmark;
use crate::text::{cat2, cat3, cat4};
use crate::window;
use crate::window::SteadyStateMeasurement;
use crate::workload::SteadyStateWorkload;
use vstd::prelude::*;

verus! {

/// What a row needs done.
#[derive(Clone, Copy, Debug, PartialEq, Eq, Structural)]
pub enum RowAction {
    /// Go on at once.
    Nothing,
    /// Load the dataset.
    Load { records: u32 },
    Sleep { secs: u64 },
    /// Run the workers for a time.
    RunWindow { secs: u64, record: bool, start_op_index: u64 },
    /// Let the server settle.
    Quiesce,
    /// Remove the records of the row; the count says how many it may have created.
    Reset { completed_operations: u64 },
}

/// What came of an action, and how long it took.
pub enum RowReply<R> {
    Done { elapsed_ms: Float64 },
    Measured { elapsed_ms: Float64, measurement: SteadyStateMeasurement<R> },
    Failed { elapsed_ms: Float64, reason: Reason },
}

/// How far a row has come.
pub enum RowStage<R> {
    Preparing,
    Warming { prepare: SteadyStatePhase },
    /// The warmup failed; its records are being removed.
    Aborting { reason: String },
    Measuring { prepare: SteadyStatePhase, warmup: SteadyStatePhase },
    /// An idle row has no measurement.
    Draining {
        prepare: SteadyStatePhase,
        warmup: SteadyStatePhase,
        measure: SteadyStatePhase,
        measurement: Option<SteadyStateMeasurement<R>>,
    },
    Cleaning {
        prepare: SteadyStatePhase,
        warmup: SteadyStatePhase,
        measure: SteadyStatePhase,
        drain_ms: Float64,
        measurement: Option<SteadyStateMeasurement<R>>,
    },
}

/// What comes next in a row.
pub enum RowNext<R> {
    Act { stage: RowStage<R>, action: RowAction },
    /// The row is complete.
    Row { row: SteadyStateResult<R> },
    /// The row cannot go on.
    Error { reason: Reason },
}

impl<R> RowReply<R> {
    pub open spec fn elapsed(self) -> Float64 {
        match self {
            RowReply::Done { elapsed_ms } => elapsed_ms,
            RowReply::Measured { elapsed_ms, .. } => elapsed_ms,
            RowReply::Failed { elapsed_ms, .. } => elapsed_ms,
        }
    }

    pub open spec fn measurement(self) -> Option<SteadyStateMeasurement<R>> {
        match self {
            RowReply::Measured { measurement, .. } => Some(measurement),
            _ => None,
        }
    }

    pub open spec fn error(self) -> Option<Reason> {
        match self {
            RowReply::Failed { reason, .. } => Some(reason),
            _ => None,
        }
    }
}

pub open spec fn completed_at(elapsed_ms: Float64) -> SteadyStatePhase {
    SteadyStatePhase { elapsed_ms, status: SteadyStateStatus::Completed }
}

/// The first action of a row: a row that runs against a dataset loads it.
pub open spec fn prepare_action(w: SteadyStateWorkload, c: SteadyStateConfig) -> RowAction {
    if w == SteadyStateWorkload::SustainedIngest {
        RowAction::Nothing
    } else {
        RowAction::Load { records: c.records }
    }
}

/// The warmup of a row: an idle row sleeps, any other runs its workload without recording it.
pub open spec fn warmup_action(w: SteadyStateWorkload, c: SteadyStateConfig) -> RowAction {
    if w == SteadyStateWorkload::Idle {
        RowAction::Sleep { secs: c.warmup_secs }
    } else if c.warmup_secs > 0 {
        RowAction::RunWindow { secs: c.warmup_secs, record: false, start_op_index: 0 }
    } else {
        RowAction::Nothing
    }
}

/// The measurement of a row: it goes on where the warmup stopped.
pub open spec fn measure_action(
    w: SteadyStateWorkload,
    c: SteadyStateConfig,
    warmed: u64,
) -> RowAction {
    if w == SteadyStateWorkload::Idle {
        RowAction::Sleep { secs: c.measurement_secs }
    } else {
        RowAction::RunWindow { secs: c.measurement_secs, record: true, start_op_index: warmed }
    }
}

pub open spec fn failure_of<R>(m: Option<SteadyStateMeasurement<R>>) -> Option<Seq<char>> {
    match m {
        Some(m) => row::text_of(m.failure_reason),
        None => None,
    }
}

pub open spec fn warmed<R>(m: Option<SteadyStateMeasurement<R>>) -> u64 {
    match m {
        Some(m) => m.completed,
        None => 0,
    }
}

/// How many records the row may have created, for its cleanup.
pub open spec fn cleanup_count<R>(m: Option<SteadyStateMeasurement<R>>, c: SteadyStateConfig) -> u64 {
    match m {
        Some(m) => m.cleanup_upper,
        None => c.records as u64,
    }
}

/// Whether `row` reports the measurement of a row.
pub open spec fn is_measured_row<R>(
    row: SteadyStateResult<R>,
    b: Benchmark,
    c: SteadyStateConfig,
    w: SteadyStateWorkload,
    database: Option<String>,
    phases: (SteadyStatePhase, SteadyStatePhase, SteadyStatePhase),
    drain_ms: Float64,
    cleanup_ms: Float64,
    m: SteadyStateMeasurement<R>,
    cleanup: Option<Reason>,
) -> bool {
    let v = row::verdict(row::text_of(m.failure_reason), row::chain_of(cleanup));
    &&& row.heads(w, b, c, database)
    &&& row.status == v.0
    &&& row::text_of(row.unsupported_reason) == v.1
    &&& row::text_of(row.failure_reason) == v.2
    &&& row.phases == (SteadyStatePhases {
        prepare: phases.0,
        warmup: phases.1,
        measure: phases.2,
        drain: completed_at(drain_ms),
        cleanup: SteadyStatePhase { elapsed_ms: cleanup_ms, status: v.3 },
    })
    &&& row.drain == Some(SteadyStateDrain { elapsed_ms: drain_ms, timed_out: false })
    &&& match m.result {
        Some(measured) => {
            &&& row.operation_result == Some(measured.result)
            &&& row.throughput == Some(
                SteadyStateThroughput {
                    completed_operations: m.completed,
                    ops_per_sec: measured.figures.ops_per_sec,
                    per_second_windows: measured.figures.per_second_windows,
                },
            )
            &&& row.latency == Some(
                SteadyStateLatency {
                    sample_count: m.latency_samples,
                    p50_ms: measured.figures.p50_ms,
                    p95_ms: measured.figures.p95_ms,
                    p99_ms: measured.figures.p99_ms,
                },
            )
        },
        None => {
            &&& row.operation_result is None
            &&& row.throughput is None
            &&& row.latency is None
        },
    }
    &&& row.validation matches Some(validation) && {
        &&& validation.errors == m.errors
        &&& validation.read_hits == m.read_hits
        &&& validation.read_misses == m.read_misses
        &&& validation.updates == m.updates
        &&& validation.scan_count_errors == m.scan_count_errors
        &&& validation.observed_mix@ == m.mix()
        &&& validation.expected_mix_prefix@ == c.prefix_mix(w, m.completed as nat)
    }
}

/// Status and reasons of an idle row: only its cleanup can go wrong.
pub open spec fn idle_verdict(cleanup: Option<Reason>) -> (
    SteadyStateStatus,
    Option<Seq<char>>,
    Option<Seq<char>>,
) {
    match cleanup {
        None => (SteadyStateStatus::Completed, None, None),
        Some(reason) => if phase::unsupported(reason.message@) {
            (SteadyStateStatus::Unsupported, Some("NotSupported"@), None)
        } else {
            (SteadyStateStatus::Failed, None, Some(row::cleanup_failure(reason.chain@)))
        },
    }
}

/// Whether `row` reports an idle row.
pub open spec fn is_idle_row<R>(
    row: SteadyStateResult<R>,
    b: Benchmark,
    c: SteadyStateConfig,
    w: SteadyStateWorkload,
    database: Option<String>,
    phases: (SteadyStatePhase, SteadyStatePhase, SteadyStatePhase),
    drain_ms: Float64,
    cleanup_ms: Float64,
    cleanup: Option<Reason>,
) -> bool {
    let v = idle_verdict(cleanup);
    &&& row.heads(w, b, c, database)
    &&& row.status == v.0
    &&& row::text_of(row.unsupported_reason) == v.1
    &&& row::text_of(row.failure_reason) == v.2
    &&& row.phases == (SteadyStatePhases {
        prepare: phases.0,
        warmup: phases.1,
        measure: phases.2,
        drain: completed_at(drain_ms),
        cleanup: SteadyStatePhase { elapsed_ms: cleanup_ms, status: v.0 },
    })
    &&& row.drain == Some(SteadyStateDrain { elapsed_ms: drain_ms, timed_out: false })
    &&& row.throughput is None
    &&& row.latency is None
    &&& row.operation_result is None
    &&& row.validation matches Some(validation) && {
        &&& validation.errors == 0
        &&& validation.read_hits == 0
        &&& validation.read_misses == 0
        &&& validation.updates == 0
        &&& validation.scan_count_errors == 0
        &&& validation.observed_mix@ == "none"@
        &&& validation.expected_mix_prefix@ == "none"@
    }
}

/// Whether `next` follows on `reply` in a row that has come to `stage`.
pub open spec fn follows<R>(
    next: RowNext<R>,
    stage: RowStage<R>,
    reply: RowReply<R>,
    b: Benchmark,
    c: SteadyStateConfig,
    w: SteadyStateWorkload,
    database: Option<String>,
) -> bool {
    match stage {
        RowStage::Preparing => match reply.error() {
            Some(reason) => next == RowNext::<R>::Error { reason },
            None => next == RowNext::<R>::Act {
                stage: RowStage::Warming { prepare: completed_at(reply.elapsed()) },
                action: warmup_action(w, c),
            },
        },
        RowStage::Warming { prepare } => match reply.error() {
            Some(reason) => next == RowNext::<R>::Error { reason },
            None => match failure_of(reply.measurement()) {
                Some(text) => next matches RowNext::Act {
                    stage: RowStage::Aborting { reason },
                    action: RowAction::Reset { completed_operations },
                } && reason@ == text && completed_operations == cleanup_count(
                    reply.measurement(),
                    c,
                ),
                None => next == RowNext::<R>::Act {
                    stage: RowStage::Measuring {
                        prepare,
                        warmup: completed_at(reply.elapsed()),
                    },
                    action: measure_action(w, c, warmed(reply.measurement())),
                },
            },
        },
        RowStage::Aborting { reason: first } => match reply.error() {
            Some(reason) => next == RowNext::<R>::Error { reason },
            None => next matches RowNext::Error { reason } && reason.message@ == first@
                && reason.chain@ == first@,
        },
        RowStage::Measuring { prepare, warmup } => match reply.error() {
            Some(reason) => next == RowNext::<R>::Error { reason },
            None => next == RowNext::<R>::Act {
                stage: RowStage::Draining {
                    prepare,
                    warmup,
                    measure: completed_at(reply.elapsed()),
                    measurement: reply.measurement(),
                },
                action: RowAction::Quiesce,
            },
        },
        RowStage::Draining { prepare, warmup, measure, measurement } => {
            next == RowNext::<R>::Act {
                stage: RowStage::Cleaning {
                    prepare,
                    warmup,
                    measure,
                    drain_ms: reply.elapsed(),
                    measurement,
                },
                action: RowAction::Reset { completed_operations: cleanup_count(measurement, c) },
            }
        },
        RowStage::Cleaning { prepare, warmup, measure, drain_ms, measurement } => {
            next matches RowNext::Row { row } && match measurement {
                Some(m) => is_measured_row(
                    row,
                    b,
                    c,
                    w,
                    database,
                    (prepare, warmup, measure),
                    drain_ms,
                    reply.elapsed(),
                    m,
                    reply.error(),
                ),
                None => is_idle_row(
                    row,
                    b,
                    c,
                    w,
                    database,
                    (prepare, warmup, measure),
                    drain_ms,
                    reply.elapsed(),
                    reply.error(),
                ),
            }
        },
    }
}

/// Starts a row.
pub fn start_row<R>(config: &SteadyStateConfig, workload: SteadyStateWorkload) -> (r: (
    RowStage<R>,
    RowAction,
))
    ensures
        r.0 == RowStage::<R>::Preparing,
        r.1 == prepare_action(workload, *config),
{
    let action: RowAction = if workload.requires_prepared_dataset() {
        RowAction::Load { records: config.records }
    } else {
        RowAction::Nothing
    };
    (RowStage::Preparing, action)
}

fn measured_row<R>(
    benchmark: &Benchmark,
    config: &SteadyStateConfig,
    workload: SteadyStateWorkload,
    database: Option<String>,
    phases: (SteadyStatePhase, SteadyStatePhase, SteadyStatePhase),
    drain_ms: Float64,
    cleanup_ms: Float64,
    m: SteadyStateMeasurement<R>,
    cleanup: Option<Reason>,
) -> (row: SteadyStateResult<R>)
    requires
        workload == SteadyStateWorkload::Idle || config.schedules(workload),
    ensures
        is_measured_row(
            row,
            *benchmark,
            *config,
            workload,
            database,
            phases,
            drain_ms,
            cleanup_ms,
            m,
            cleanup,
        ),
        m.result matches Some(measured) ==> {
            &&& row.latency matches Some(latency) && latency.p50_ms == measured.figures.p50_ms
                && latency.p95_ms == measured.figures.p95_ms && latency.p99_ms
                == measured.figures.p99_ms && latency.sample_count == m.latency_samples
            &&& row.throughput matches Some(throughput) && throughput.completed_operations
                == m.completed && throughput.ops_per_sec == measured.figures.ops_per_sec
        },
        m.result is None ==> row.latency is None && row.throughput is None,
{
    let validation: SteadyStateValidation = SteadyStateValidation {
        errors: m.errors,
        read_hits: m.read_hits,
        read_misses: m.read_misses,
        updates: m.updates,
        scan_count_errors: m.scan_count_errors,
        observed_mix: m.observed_mix(),
        expected_mix_prefix: workload.expected_mix_prefix(config, m.completed),
    };
    let verdict: RowVerdict = row_verdict(m.failure_reason, cleanup);
    let (operation_result, throughput, latency): (
        Option<R>,
        Option<SteadyStateThroughput>,
        Option<SteadyStateLatency>,
    ) = match m.result {
        Some(measured) => (
            Some(measured.result),
            Some(
                SteadyStateThroughput {
                    completed_operations: m.completed,
                    ops_per_sec: measured.figures.ops_per_sec,
                    per_second_windows: measured.figures.per_second_windows,
                },
            ),
            Some(
                SteadyStateLatency {
                    sample_count: m.latency_samples,
                    p50_ms: measured.figures.p50_ms,
                    p95_ms: measured.figures.p95_ms,
                    p99_ms: measured.figures.p99_ms,
                },
            ),
        ),
        None => (None, None, None),
    };
    SteadyStateResult {
        name: workload.name().to_owned(),
        suite: "steady-state",
        database,
        status: verdict.status,
        unsupported_reason: verdict.unsupported_reason,
        failure_reason: verdict.failure_reason,
        sync: benchmark.sync,
        task: workload.task(benchmark, config),
        phases: SteadyStatePhases {
            prepare: phases.0,
            warmup: phases.1,
            measure: phases.2,
            drain: completed_phase(drain_ms),
            cleanup: SteadyStatePhase {
                elapsed_ms: cleanup_ms,
                status: verdict.cleanup_status,
            },
        },
        throughput,
        latency,
        validation: Some(validation),
        drain: Some(SteadyStateDrain { elapsed_ms: drain_ms, timed_out: false }),
        operation_result,
    }
}

fn idle_row<R>(
    benchmark: &Benchmark,
    config: &SteadyStateConfig,
    workload: SteadyStateWorkload,
    database: Option<String>,
    phases: (SteadyStatePhase, SteadyStatePhase, SteadyStatePhase),
    drain_ms: Float64,
    cleanup_ms: Float64,
    cleanup: Option<Reason>,
) -> (row: SteadyStateResult<R>)
    ensures
        is_idle_row(
            row,
            *benchmark,
            *config,
            workload,
            database,
            phases,
            drain_ms,
            cleanup_ms,
            cleanup,
        ),
{
    let (status, unsupported_reason, failure_reason): (
        SteadyStateStatus,
        Option<String>,
        Option<String>,
    ) = match cleanup {
        None => (SteadyStateStatus::Completed, None, None),
        Some(reason) => if is_unsupported(reason.message.as_str()) {
            (SteadyStateStatus::Unsupported, Some("NotSupported".to_owned()), None)
        } else {
            (
                SteadyStateStatus::Failed,
                None,
                Some(cat2("cleanup failed: ", reason.chain.as_str())),
            )
        },
    };
    SteadyStateResult {
        name: workload.name().to_owned(),
        suite: "steady-state",
        database,
        status,
        unsupported_reason,
        failure_reason,
        sync: benchmark.sync,
        task: workload.task(benchmark, config),
        phases: SteadyStatePhases {
            prepare: phases.0,
            warmup: phases.1,
            measure: phases.2,
            drain: completed_phase(drain_ms),
            cleanup: SteadyStatePhase { elapsed_ms: cleanup_ms, status },
        },
        throughput: None,
        latency: None,
        validation: Some(
            SteadyStateValidation {
                errors: 0,
                read_hits: 0,
                read_misses: 0,
                updates: 0,
                scan_count_errors: 0,
                observed_mix: "none".to_owned(),
                expected_mix_prefix: "none".to_owned(),
            },
        ),
        drain: Some(SteadyStateDrain { elapsed_ms: drain_ms, timed_out: false }),
        operation_result: None,
    }
}

/// Takes a row on by what came of its last action.
pub fn next_in_row<R>(
    stage: RowStage<R>,
    reply: RowReply<R>,
    benchmark: &Benchmark,
    config: &SteadyStateConfig,
    workload: SteadyStateWorkload,
    database: Option<String>,
) -> (next: RowNext<R>)
    requires
        workload == SteadyStateWorkload::Idle || config.schedules(workload),
    ensures
        follows(next, stage, reply, *benchmark, *config, workload, database),
        stage matches RowStage::Cleaning { measurement: Some(m), .. } ==> {
            &&& next matches RowNext::Row { row } && (m.result matches Some(measured) ==> (
            row.latency matches Some(latency) && latency.p50_ms == measured.figures.p50_ms
                && latency.p95_ms == measured.figures.p95_ms && latency.p99_ms
                == measured.figures.p99_ms))
        },
{
    let (elapsed_ms, measurement, error): (
        Float64,
        Option<SteadyStateMeasurement<R>>,
        Option<Reason>,
    ) = match reply {
        RowReply::Done { elapsed_ms } => (elapsed_ms, None, None),
        RowReply::Measured { elapsed_ms, measurement } => (elapsed_ms, Some(measurement), None),
        RowReply::Failed { elapsed_ms, reason } => (elapsed_ms, None, Some(reason)),
    };
    let idle: bool = workload == SteadyStateWorkload::Idle;
    match stage {
        RowStage::Preparing => {
            if let Some(reason) = error {
                return RowNext::Error { reason };
            }
            let action: RowAction = if idle {
                RowAction::Sleep { secs: config.warmup_secs }
            } else if config.warmup_secs > 0 {
                RowAction::RunWindow { secs: config.warmup_secs, record: false, start_op_index: 0 }
            } else {
                RowAction::Nothing
            };
            RowNext::Act {
                stage: RowStage::Warming { prepare: completed_phase(elapsed_ms) },
                action,
            }
        },
        RowStage::Warming { prepare } => {
            if let Some(reason) = error {
                return RowNext::Error { reason };
            }
            let mut next_op_index: u64 = 0;
            if let Some(warmup) = measurement {
                next_op_index = warmup.completed;
                if let Some(reason) = warmup.failure_reason {
                    return RowNext::Act {
                        stage: RowStage::Aborting { reason },
                        action: RowAction::Reset { completed_operations: warmup.cleanup_upper },
                    };
                }
            }
            let action: RowAction = if idle {
                RowAction::Sleep { secs: config.measurement_secs }
            } else {
                RowAction::RunWindow {
                    secs: config.measurement_secs,
                    record: true,
                    start_op_index: next_op_index,
                }
            };
            RowNext::Act {
                stage: RowStage::Measuring { prepare, warmup: completed_phase(elapsed_ms) },
                action,
            }
        },
        RowStage::Aborting { reason } => {
            if let Some(reason) = error {
                return RowNext::Error { reason };
            }
            let chain: String = reason.clone();
            RowNext::Error { reason: Reason { message: reason, chain } }
        },
        RowStage::Measuring { prepare, warmup } => {
            if let Some(reason) = error {
                return RowNext::Error { reason };
            }
            RowNext::Act {
                stage: RowStage::Draining {
                    prepare,
                    warmup,
                    measure: completed_phase(elapsed_ms),
                    measurement,
                },
                action: RowAction::Quiesce,
            }
        },
        RowStage::Draining { prepare, warmup, measure, measurement } => {
            let completed_operations: u64 = match &measurement {
                Some(m) => m.cleanup_upper,
                None => config.records as u64,
            };
            RowNext::Act {
                stage: RowStage::Cleaning {
                    prepare,
                    warmup,
                    measure,
                    drain_ms: elapsed_ms,
                    measurement,
                },
                action: RowAction::Reset { completed_operations },
            }
        },
        RowStage::Cleaning { prepare, warmup, measure, drain_ms, measurement } => {
            let phases: (SteadyStatePhase, SteadyStatePhase, SteadyStatePhase) = (
                prepare,
                warmup,
                measure,
            );
            let row: SteadyStateResult<R> = match measurement {
                Some(m) => measured_row(
                    benchmark,
                    config,
                    workload,
                    database,
                    phases,
                    drain_ms,
                    elapsed_ms,
                    m,
                    error,
                ),
                None => idle_row(
                    benchmark,
                    config,
                    workload,
                    database,
                    phases,
                    drain_ms,
                    elapsed_ms,
                    error,
                ),
            };
            RowNext::Row { row }
        },
    }
}

/// How far the current row of a suite has come.
pub enum SuiteStage {
    /// What an earlier run left is being removed.
    Opening,
    Running,
    /// The row failed; its records are being removed.
    Recovering { reason: Reason },
}

/// What a suite needs done.
#[derive(Clone, Copy, Debug, PartialEq, Eq, Structural)]
pub enum SuiteAction {
    /// Print the heading of the row and remove its records.
    Open { workload: SteadyStateWorkload },
    /// Run the row.
    Run { workload: SteadyStateWorkload },
    /// Remove the records of the row.
    Recover { workload: SteadyStateWorkload },
    End,
}

/// A suite of steady-state rows in progress.
pub struct SuiteRun<R> {
    pub workloads: Vec<SteadyStateWorkload>,
    pub results: Vec<SteadyStateResult<R>>,
    pub stage: SuiteStage,
}

pub open spec fn heading_spec(w: SteadyStateWorkload) -> Seq<char> {
    "Steady-state \u{b7} "@ + w.name_text()
}

/// The heading of a row.
pub fn row_heading(workload: SteadyStateWorkload) -> (r: String)
    ensures
        r@ == heading_spec(workload),
{
    cat2("Steady-state \u{b7} ", workload.name())
}

pub open spec fn skipped_cleanup(w: SteadyStateWorkload) -> Seq<char> {
    "steady-state pre-run cleanup for "@ + w.name_text() + " is unsupported; continuing"@
}

pub open spec fn failed_recovery(w: SteadyStateWorkload, chain: Seq<char>) -> Seq<char> {
    "steady-state error cleanup for "@ + w.name_text() + " failed: "@ + chain
}

impl<R> SuiteRun<R> {
    /// Every finished row has its result, in the order of the rows.
    pub open spec fn wf(self, c: SteadyStateConfig) -> bool {
        &&& self.results@.len() <= self.workloads@.len()
        &&& forall|i: int|
            0 <= i < self.results@.len() ==> (#[trigger] self.results@[i]).name@
                == self.workloads@[i].name_text()
        &&& forall|i: int|
            0 <= i < self.workloads@.len() ==> #[trigger] self.workloads@[i]
                == SteadyStateWorkload::Idle || c.schedules(self.workloads@[i])
    }

    pub open spec fn ended(self) -> bool {
        self.results@.len() == self.workloads@.len()
    }

    /// The row that is being run.
    pub open spec fn current(self) -> SteadyStateWorkload {
        self.workloads@[self.results@.len() as int]
    }

    /// A suite before its first row.
    pub fn new(workloads: Vec<SteadyStateWorkload>, config: &SteadyStateConfig) -> (r: Self)
        requires
            config.period() > 0,
        ensures
            r.wf(*config),
            r.workloads == workloads,
            r.results@ == Seq::<SteadyStateResult<R>>::empty(),
            r.stage is Opening,
    {
        SuiteRun { workloads, results: Vec::new(), stage: SuiteStage::Opening }
    }

    /// What has to be done next.
    pub fn action(&self) -> (r: SuiteAction)
        requires
            self.results@.len() <= self.workloads@.len(),
        ensures
            r == if self.ended() {
                SuiteAction::End
            } else {
                match self.stage {
                    SuiteStage::Opening => SuiteAction::Open { workload: self.current() },
                    SuiteStage::Running => SuiteAction::Run { workload: self.current() },
                    SuiteStage::Recovering { .. } => SuiteAction::Recover {
                        workload: self.current(),
                    },
                }
            },
    {
        let at: usize = self.results.len();
        if at == self.workloads.len() {
            return SuiteAction::End;
        }
        let workload: SteadyStateWorkload = self.workloads[at];
        match &self.stage {
            SuiteStage::Opening => SuiteAction::Open { workload },
            SuiteStage::Running => SuiteAction::Run { workload },
            SuiteStage::Recovering { .. } => SuiteAction::Recover { workload },
        }
    }

    /// Takes in how the removal before a row went. A datastore that cannot remove records runs the
    /// row all the same, with a warning; any other error fails the row.
    pub fn opened(
        &mut self,
        error: Option<Reason>,
        benchmark: &Benchmark,
        config: &SteadyStateConfig,
        database: Option<String>,
    ) -> (warning: Option<String>)
        requires
            old(self).wf(*config),
            !old(self).ended(),
            old(self).stage is Opening,
        ensures
            final(self).wf(*config),
            final(self).workloads == old(self).workloads,
            match error {
                None => final(self).stage is Running && final(self).results == old(self).results
                    && warning is None,
                Some(reason) => if phase::unsupported(reason.message@) {
                    &&& final(self).stage is Running
                    &&& final(self).results == old(self).results
                    &&& warning matches Some(line) && line@ == skipped_cleanup(old(self).current())
                } else {
                    &&& final(self).stage is Opening
                    &&& final(self).results@.len() == old(self).results@.len() + 1
                    &&& final(self).results@.drop_last() == old(self).results@
                    &&& row::is_failed_row(
                        final(self).results@.last(),
                        *benchmark,
                        database,
                        *config,
                        old(self).current(),
                        reason.message@,
                    )
                    &&& warning is None
                },
            },
    {
        let workload: SteadyStateWorkload = self.workloads[self.results.len()];
        match error {
            None => {
                self.stage = SuiteStage::Running;
                None
            },
            Some(reason) => {
                if is_unsupported(reason.message.as_str()) {
                    self.stage = SuiteStage::Running;
                    Some(
                        cat3(
                            "steady-state pre-run cleanup for ",
                            workload.name(),
                            " is unsupported; continuing",
                        ),
                    )
                } else {
                    let row: SteadyStateResult<R> = failed_steady_state_row(
                        benchmark,
                        database,
                        config,
                        workload,
                        reason.message,
                    );
                    self.results.push(row);
                    assert(self.results@.drop_last() =~= old(self).results@);
                    None
                }
            },
        }
    }

    /// Takes in the row that was run.
    pub fn ran(&mut self, row: SteadyStateResult<R>, config: &SteadyStateConfig)
        requires
            old(self).wf(*config),
            !old(self).ended(),
            row.name@ == old(self).current().name_text(),
        ensures
            final(self).wf(*config),
            final(self).workloads == old(self).workloads,
            final(self).results@ == old(self).results@.push(row),
            final(self).stage is Opening,
    {
        self.results.push(row);
        self.stage = SuiteStage::Opening;
    }

    /// Takes in that the row could not be run to its end.
    pub fn stopped(&mut self, reason: Reason)
        ensures
            final(self).workloads == old(self).workloads,
            final(self).results == old(self).results,
            final(self).stage == (SuiteStage::Recovering { reason }),
    {
        self.stage = SuiteStage::Recovering { reason };
    }

    /// Takes in how the removal after a failed row went: the row is reported as unsupported or as
    /// failed, and a failed removal gives a warning.
    pub fn recovered(
        &mut self,
        error: Option<Reason>,
        benchmark: &Benchmark,
        config: &SteadyStateConfig,
        database: Option<String>,
    ) -> (warning: Option<String>)
        requires
            old(self).wf(*config),
            !old(self).ended(),
            old(self).stage is Recovering,
        ensures
            final(self).wf(*config),
            final(self).workloads == old(self).workloads,
            final(self).stage is Opening,
            final(self).results@.len() == old(self).results@.len() + 1,
            final(self).results@.drop_last() == old(self).results@,
            old(self).stage matches SuiteStage::Recovering { reason } && if phase::unsupported(
                reason.message@,
            ) {
                row::is_unsupported_row(
                    final(self).results@.last(),
                    *benchmark,
                    database,
                    *config,
                    old(self).current(),
                    reason.message@,
                )
            } else {
                row::is_failed_row(
                    final(self).results@.last(),
                    *benchmark,
                    database,
                    *config,
                    old(self).current(),
                    reason.message@,
                )
            },
            match (warning, error) {
                (Some(line), Some(reason)) => line@ == failed_recovery(
                    old(self).current(),
                    reason.chain@,
                ),
                (None, None) => true,
                _ => false,
            },
    {
        let workload: SteadyStateWorkload = self.workloads[self.results.len()];
        let mut stage: SuiteStage = SuiteStage::Opening;
        std::mem::swap(&mut self.stage, &mut stage);
        if let SuiteStage::Recovering { reason } = stage {
            let row: SteadyStateResult<R> = if is_unsupported(reason.message.as_str()) {
                unsupported_steady_state_row(benchmark, database, config, workload, reason.message)
            } else {
                failed_steady_state_row(benchmark, database, config, workload, reason.message)
            };
            self.results.push(row);
            assert(self.results@.drop_last() =~= old(self).results@);
        }
        match error {
            Some(reason) => Some(
                cat4(
                    "steady-state error cleanup for ",
                    workload.name(),
                    " failed: ",
                    reason.chain.as_str(),
                ),
            ),
            None => None,
        }
    }
}

/// A row is reported with a reason that fits its status: an unsupported row says what is
/// unsupported, a failed row why it failed, a completed row neither; and only a window that met an
/// unsupported operation, cleaned up without a failure, is reported as unsupported.
pub proof fn lemma_status_has_reason(failure: Option<Seq<char>>, cleanup: Option<Seq<char>>)
    ensures
        ({
            let v = row::verdict(failure, cleanup);
            &&& (v.0 == SteadyStateStatus::Unsupported) == (v.1 is Some)
            &&& (v.0 == SteadyStateStatus::Failed) == (v.2 is Some)
            &&& (v.0 == SteadyStateStatus::Completed) == (failure is None && cleanup is None)
            &&& v.0 == SteadyStateStatus::Unsupported ==> cleanup is None && (failure matches Some(
                reason,
            ) && phase::unsupported(reason))
            &&& v.3 == SteadyStateStatus::Failed ==> v.0 == SteadyStateStatus::Failed
        }),
{
}

/// The records that a measurement creates are new: their keys come after those of the warmup, which
/// started at 0 and completed `warmed` operations.
pub proof fn lemma_measured_keys_are_new(warmed: u64, warm_index: u64, op_index: u64)
    requires
        warm_index < warmed,
        window::created_key(0, warm_index) is Ok,
        window::created_key(warmed, op_index) is Ok,
    ensures
        window::created_key(0, warm_index)->Ok_0 < window::created_key(warmed, op_index)->Ok_0,
{
}

/// What an ingest row created lies in the range that its reset removes: `upper` is what is to be
/// cleaned up once the record is asked for, and it only grows. A reset is refused only where the
/// range ends beyond the last key.
pub proof fn lemma_reset_covers_created(
    c: SteadyStateConfig,
    start_op_index: u64,
    op_index: u64,
    before: u64,
    later: int,
)
    requires
        window::created_key(start_op_index, op_index) is Ok,
        0 <= later <= u32::MAX + 1,
    ensures
        ({
            let key = window::created_key(start_op_index, op_index)->Ok_0;
            let upper = window::larger(window::larger(before, key + 1), later);
            &&& key < upper
            &&& before <= upper
            &&& match row::reset_range(c, SteadyStateWorkload::SustainedIngest, upper) {
                Ok(Some(removed)) => key < removed,
                Ok(None) => false,
                Err(_) => upper > u32::MAX,
            }
        }),
{
}

} // verus!
