//! Steady-state rows: what is reported of a row, and the course of a row.
use crate::binary64::Float64;
use crate::config::SteadyStateConfig;
use crate::failure::Failure;
use crate::phase;
use crate::phase::is_unsupported;
use crate::settings::Benchmark;
use crate::text::{cat2, cat3};
use crate::workload::SteadyStateWorkload;
use vstd::prelude::*;

verus! {

/// How a row or one of its phases ended.
#[derive(Clone, Copy, Debug, PartialEq, Eq, Structural)]
pub enum SteadyStateStatus {
    Completed,
    Unsupported,
    Failed,
}

/// A phase of a row.
#[derive(Clone, Copy, Debug)]
pub struct SteadyStatePhase {
    pub elapsed_ms: Float64,
    pub status: SteadyStateStatus,
}

#[derive(Clone, Copy, Debug)]
pub struct SteadyStatePhases {
    pub prepare: SteadyStatePhase,
    pub warmup: SteadyStatePhase,
    pub measure: SteadyStatePhase,
    pub drain: SteadyStatePhase,
    pub cleanup: SteadyStatePhase,
}

pub struct SteadyStateThroughput {
    pub completed_operations: u64,
    pub ops_per_sec: Float64,
    pub per_second_windows: Vec<Float64>,
}

#[derive(Clone, Copy, Debug)]
pub struct SteadyStateLatency {
    pub sample_count: u64,
    pub p50_ms: Float64,
    pub p95_ms: Float64,
    pub p99_ms: Float64,
}

pub struct SteadyStateValidation {
    pub errors: u64,
    pub read_hits: u64,
    pub read_misses: u64,
    pub updates: u64,
    pub scan_count_errors: u64,
    pub observed_mix: String,
    pub expected_mix_prefix: String,
}

#[derive(Clone, Copy, Debug)]
pub struct SteadyStateDrain {
    pub elapsed_ms: Float64,
    pub timed_out: bool,
}

/// What a row was asked to do.
pub struct SteadyStateTask {
    pub records: u32,
    pub clients: u32,
    pub threads: u32,
    pub warmup_secs: u64,
    pub measurement_secs: u64,
    pub latency_sample_every: u64,
    pub seed: u64,
    pub worker_seed_derivation: &'static str,
    pub operation_mix: String,
    pub operation_mix_period: u32,
    pub key_selection: &'static str,
    pub zipfian_exponent: Float64,
}

/// What is reported of a row.
pub struct SteadyStateResult<R> {
    pub name: String,
    pub suite: &'static str,
    pub database: Option<String>,
    pub status: SteadyStateStatus,
    pub unsupported_reason: Option<String>,
    pub failure_reason: Option<String>,
    pub sync: bool,
    pub task: SteadyStateTask,
    pub phases: SteadyStatePhases,
    pub throughput: Option<SteadyStateThroughput>,
    pub latency: Option<SteadyStateLatency>,
    pub validation: Option<SteadyStateValidation>,
    pub drain: Option<SteadyStateDrain>,
    pub operation_result: Option<R>,
}

/// An error of the datastore.
pub struct Reason {
    /// The error alone.
    pub message: String,
    /// The error with its causes.
    pub chain: String,
}

impl SteadyStateTask {
    /// Whether this is the task of a row.
    pub open spec fn describes(
        self,
        w: SteadyStateWorkload,
        b: Benchmark,
        c: SteadyStateConfig,
    ) -> bool {
        &&& self.records == c.records
        &&& self.clients == b.clients
        &&& self.threads == b.threads
        &&& self.warmup_secs == c.warmup_secs
        &&& self.measurement_secs == c.measurement_secs
        &&& self.latency_sample_every == c.latency_sample_every
        &&& self.seed == c.seed
        &&& self.worker_seed_derivation@ == "splitmix64(seed ^ worker_index)"@
        &&& self.operation_mix@ == w.mix_words(c)
        &&& self.operation_mix_period == c.operation_mix_period
        &&& self.key_selection@ == w.key_selection_text()
        &&& self.zipfian_exponent == c.zipfian_exponent
    }
}

impl SteadyStateWorkload {
    /// What the row is asked to do.
    pub fn task(self, benchmark: &Benchmark, config: &SteadyStateConfig) -> (r: SteadyStateTask)
        ensures
            r.describes(self, *benchmark, *config),
    {
        SteadyStateTask {
            records: config.records,
            clients: benchmark.clients,
            threads: benchmark.threads,
            warmup_secs: config.warmup_secs,
            measurement_secs: config.measurement_secs,
            latency_sample_every: config.latency_sample_every,
            seed: config.seed,
            worker_seed_derivation: "splitmix64(seed ^ worker_index)",
            operation_mix: self.operation_mix(config),
            operation_mix_period: config.operation_mix_period,
            key_selection: self.key_selection(),
            zipfian_exponent: config.zipfian_exponent,
        }
    }
}

/// A phase that came to its end.
pub fn completed_phase(elapsed_ms: Float64) -> (r: SteadyStatePhase)
    ensures
        r == (SteadyStatePhase { elapsed_ms, status: SteadyStateStatus::Completed }),
{
    SteadyStatePhase { elapsed_ms, status: SteadyStateStatus::Completed }
}

pub open spec fn uniform_phases(status: SteadyStateStatus) -> SteadyStatePhases {
    let phase = SteadyStatePhase { elapsed_ms: Float64::zero_spec(), status };
    SteadyStatePhases {
        prepare: phase,
        warmup: phase,
        measure: phase,
        drain: phase,
        cleanup: phase,
    }
}

fn same_phases(status: SteadyStateStatus) -> (r: SteadyStatePhases)
    ensures
        r == uniform_phases(status),
{
    let phase: SteadyStatePhase = SteadyStatePhase { elapsed_ms: Float64::zero(), status };
    SteadyStatePhases {
        prepare: phase,
        warmup: phase,
        measure: phase,
        drain: phase,
        cleanup: phase,
    }
}

pub open spec fn text_of(s: Option<String>) -> Option<Seq<char>> {
    match s {
        Some(t) => Some(t@),
        None => None,
    }
}

impl<R> SteadyStateResult<R> {
    /// What every row of a run has in common.
    pub open spec fn heads(
        self,
        w: SteadyStateWorkload,
        b: Benchmark,
        c: SteadyStateConfig,
        database: Option<String>,
    ) -> bool {
        &&& self.name@ == w.name_text()
        &&& self.suite@ == "steady-state"@
        &&& self.database == database
        &&& self.sync == b.sync
        &&& self.task.describes(w, b, c)
    }

    /// A row that measured nothing.
    pub open spec fn unmeasured(self) -> bool {
        &&& self.throughput is None
        &&& self.latency is None
        &&& self.drain is None
        &&& self.operation_result is None
    }
}

pub open spec fn is_unsupported_row<R>(
    row: SteadyStateResult<R>,
    b: Benchmark,
    database: Option<String>,
    c: SteadyStateConfig,
    w: SteadyStateWorkload,
    message: Seq<char>,
) -> bool {
    &&& row.heads(w, b, c, database)
    &&& row.unmeasured()
    &&& row.status == SteadyStateStatus::Unsupported
    &&& text_of(row.unsupported_reason) == Some(message)
    &&& row.failure_reason is None
    &&& row.phases == uniform_phases(SteadyStateStatus::Unsupported)
    &&& row.validation is None
}

pub open spec fn is_failed_row<R>(
    row: SteadyStateResult<R>,
    b: Benchmark,
    database: Option<String>,
    c: SteadyStateConfig,
    w: SteadyStateWorkload,
    message: Seq<char>,
) -> bool {
    &&& row.heads(w, b, c, database)
    &&& row.unmeasured()
    &&& row.status == SteadyStateStatus::Failed
    &&& row.unsupported_reason is None
    &&& text_of(row.failure_reason) == Some(message)
    &&& row.phases == uniform_phases(SteadyStateStatus::Failed)
    &&& row.validation matches Some(v) && {
        &&& v.errors == 1
        &&& v.read_hits == 0
        &&& v.read_misses == 0
        &&& v.updates == 0
        &&& v.scan_count_errors == 0
        &&& v.observed_mix@ == ""@
        &&& v.expected_mix_prefix@ == c.prefix_mix(w, 0)
    }
}

/// The row of a datastore that does not support it.
pub fn unsupported_steady_state_row<R>(
    benchmark: &Benchmark,
    database: Option<String>,
    config: &SteadyStateConfig,
    workload: SteadyStateWorkload,
    error: String,
) -> (r: SteadyStateResult<R>)
    ensures
        is_unsupported_row(r, *benchmark, database, *config, workload, error@),
{
    SteadyStateResult {
        name: workload.name().to_owned(),
        suite: "steady-state",
        database,
        status: SteadyStateStatus::Unsupported,
        unsupported_reason: Some(error),
        failure_reason: None,
        sync: benchmark.sync,
        task: workload.task(benchmark, config),
        phases: same_phases(SteadyStateStatus::Unsupported),
        throughput: None,
        latency: None,
        validation: None,
        drain: None,
        operation_result: None,
    }
}

/// The row that failed before it could be measured.
pub fn failed_steady_state_row<R>(
    benchmark: &Benchmark,
    database: Option<String>,
    config: &SteadyStateConfig,
    workload: SteadyStateWorkload,
    error: String,
) -> (r: SteadyStateResult<R>)
    requires
        workload == SteadyStateWorkload::Idle || config.schedules(workload),
    ensures
        is_failed_row(r, *benchmark, database, *config, workload, error@),
{
    SteadyStateResult {
        name: workload.name().to_owned(),
        suite: "steady-state",
        database,
        status: SteadyStateStatus::Failed,
        unsupported_reason: None,
        failure_reason: Some(error),
        sync: benchmark.sync,
        task: workload.task(benchmark, config),
        phases: same_phases(SteadyStateStatus::Failed),
        throughput: None,
        latency: None,
        validation: Some(
            SteadyStateValidation {
                errors: 1,
                read_hits: 0,
                read_misses: 0,
                updates: 0,
                scan_count_errors: 0,
                observed_mix: "".to_owned(),
                expected_mix_prefix: workload.expected_mix_prefix(config, 0),
            },
        ),
        drain: None,
        operation_result: None,
    }
}

/// The range of keys that a reset removes: none where nothing was loaded or created.
pub open spec fn reset_range(
    c: SteadyStateConfig,
    w: SteadyStateWorkload,
    completed_operations: u64,
) -> Result<Option<u32>, Seq<char>> {
    if w == SteadyStateWorkload::SustainedIngest {
        if completed_operations > u32::MAX {
            Err("sustained_ingest cleanup exceeded u32 key space"@)
        } else if completed_operations == 0 {
            Ok(None)
        } else {
            Ok(Some(completed_operations as u32))
        }
    } else if c.records == 0 {
        Ok(None)
    } else {
        Ok(Some(c.records))
    }
}

/// The keys to remove when a row is reset: those below the result. A row that creates its records
/// removes what it may have created, any other the loaded dataset.
pub fn reset_steady_state_upper(
    config: &SteadyStateConfig,
    workload: SteadyStateWorkload,
    completed_operations: u64,
) -> (r: Result<Option<u32>, Failure>)
    ensures
        match (r, reset_range(*config, workload, completed_operations)) {
            (Ok(a), Ok(b)) => a == b,
            (Err(e), Err(text)) => e@ == text,
            _ => false,
        },
{
    let upper: u32 = match workload {
        SteadyStateWorkload::SustainedIngest => {
            if completed_operations > u32::MAX as u64 {
                return Err(
                    Failure::new("sustained_ingest cleanup exceeded u32 key space".to_owned()),
                );
            }
            completed_operations as u32
        },
        _ => config.records,
    };
    if upper == 0 {
        return Ok(None);
    }
    Ok(Some(upper))
}

/// How a measured row ended, and why.
pub struct RowVerdict {
    pub status: SteadyStateStatus,
    pub unsupported_reason: Option<String>,
    pub failure_reason: Option<String>,
    pub cleanup_status: SteadyStateStatus,
}

pub open spec fn cleanup_failure(chain: Seq<char>) -> Seq<char> {
    "cleanup failed: "@ + chain
}

/// Status, reason of being unsupported, reason of failure and status of the cleanup of a measured
/// row: the first failure of its window counts, and a failed cleanup fails the row whatever the
/// window came to.
pub open spec fn verdict(failure: Option<Seq<char>>, cleanup: Option<Seq<char>>) -> (
    SteadyStateStatus,
    Option<Seq<char>>,
    Option<Seq<char>>,
    SteadyStateStatus,
) {
    match cleanup {
        None => match failure {
            None => (SteadyStateStatus::Completed, None, None, SteadyStateStatus::Completed),
            Some(reason) => if phase::unsupported(reason) {
                (
                    SteadyStateStatus::Unsupported,
                    Some(reason),
                    None,
                    SteadyStateStatus::Completed,
                )
            } else {
                (SteadyStateStatus::Failed, None, Some(reason), SteadyStateStatus::Completed)
            },
        },
        Some(chain) => (
            SteadyStateStatus::Failed,
            None,
            Some(
                match failure {
                    Some(reason) => reason + "; "@ + cleanup_failure(chain),
                    None => cleanup_failure(chain),
                },
            ),
            SteadyStateStatus::Failed,
        ),
    }
}

pub open spec fn chain_of(cleanup: Option<Reason>) -> Option<Seq<char>> {
    match cleanup {
        Some(reason) => Some(reason.chain@),
        None => None,
    }
}

/// How a measured row ended.
pub fn row_verdict(failure: Option<String>, cleanup: Option<Reason>) -> (r: RowVerdict)
    ensures
        (r.status, text_of(r.unsupported_reason), text_of(r.failure_reason), r.cleanup_status)
            == verdict(text_of(failure), chain_of(cleanup)),
{
    match cleanup {
        None => match failure {
            None => RowVerdict {
                status: SteadyStateStatus::Completed,
                unsupported_reason: None,
                failure_reason: None,
                cleanup_status: SteadyStateStatus::Completed,
            },
            Some(reason) => if is_unsupported(reason.as_str()) {
                RowVerdict {
                    status: SteadyStateStatus::Unsupported,
                    unsupported_reason: Some(reason),
                    failure_reason: None,
                    cleanup_status: SteadyStateStatus::Completed,
                }
            } else {
                RowVerdict {
                    status: SteadyStateStatus::Failed,
                    unsupported_reason: None,
                    failure_reason: Some(reason),
                    cleanup_status: SteadyStateStatus::Completed,
                }
            },
        },
        Some(error) => {
            let text: String = cat2("cleanup failed: ", error.chain.as_str());
            RowVerdict {
                status: SteadyStateStatus::Failed,
                unsupported_reason: None,
                failure_reason: Some(
                    match failure {
                        Some(reason) => cat3(reason.as_str(), "; ", text.as_str()),
                        None => text,
                    },
                ),
                cleanup_status: SteadyStateStatus::Failed,
            }
        },
    }
}

} // verus!
