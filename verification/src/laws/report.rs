//! A steady-state row: what is done for it, and what is reported of it.
use crate::binary64::Float64;
use crate::config::SteadyStateConfig;
use crate::row;
use crate::row::{
    SteadyStatePhase, SteadyStateResult, SteadyStateStatus, SteadyStateTask,
};
use crate::settings::Benchmark;
use crate::suite;
use crate::suite::{RowAction, RowNext, RowReply, RowStage};
use crate::window::SteadyStateMeasurement;
use crate::workload;
use crate::workload::{SteadyStateOperation, SteadyStateWorkload};
use vstd::prelude::*;

verus! {

/// A measured row reports the figures of its measurement, each under its own name: the sampled
/// latencies at the 50th, 95th and 99th percentile, the operations per second and the operations
/// that were completed. A window without figures reports none of them.
pub proof fn lemma_reported_figures<R>(
    row: SteadyStateResult<R>,
    prepare: SteadyStatePhase,
    warmup: SteadyStatePhase,
    measure: SteadyStatePhase,
    drain_ms: Float64,
    m: SteadyStateMeasurement<R>,
    reply: RowReply<R>,
    b: Benchmark,
    c: SteadyStateConfig,
    w: SteadyStateWorkload,
    database: Option<String>,
)
    requires
        suite::follows(
            RowNext::Row { row },
            RowStage::Cleaning { prepare, warmup, measure, drain_ms, measurement: Some(m) },
            reply,
            b,
            c,
            w,
            database,
        ),
    ensures
        row.latency is Some <==> m.result is Some,
        row.throughput is Some <==> m.result is Some,
        row.operation_result is Some <==> m.result is Some,
        m.result matches Some(measured) ==> {
            &&& row.latency->0.p50_ms == measured.figures.p50_ms
            &&& row.latency->0.p95_ms == measured.figures.p95_ms
            &&& row.latency->0.p99_ms == measured.figures.p99_ms
            &&& row.latency->0.sample_count == m.latency_samples
            &&& row.throughput->0.completed_operations == m.completed
            &&& row.throughput->0.ops_per_sec == measured.figures.ops_per_sec
            &&& row.throughput->0.per_second_windows == measured.figures.per_second_windows
            &&& row.operation_result->0 == measured.result
        },
{
}

/// A measured row reports the counts of its measurement, each under its own name.
pub proof fn lemma_reported_counts<R>(
    row: SteadyStateResult<R>,
    prepare: SteadyStatePhase,
    warmup: SteadyStatePhase,
    measure: SteadyStatePhase,
    drain_ms: Float64,
    m: SteadyStateMeasurement<R>,
    reply: RowReply<R>,
    b: Benchmark,
    c: SteadyStateConfig,
    w: SteadyStateWorkload,
    database: Option<String>,
)
    requires
        suite::follows(
            RowNext::Row { row },
            RowStage::Cleaning { prepare, warmup, measure, drain_ms, measurement: Some(m) },
            reply,
            b,
            c,
            w,
            database,
        ),
    ensures
        row.validation is Some,
        row.validation->0.errors == m.errors,
        row.validation->0.read_hits == m.read_hits,
        row.validation->0.read_misses == m.read_misses,
        row.validation->0.updates == m.updates,
        row.validation->0.scan_count_errors == m.scan_count_errors,
{
}

/// Whatever was measured, a row that ran to its end reports its name, the settings that it was run
/// with, and the time of each of its phases, each under its own name.
pub proof fn lemma_reported_run<R>(
    row: SteadyStateResult<R>,
    prepare: SteadyStatePhase,
    warmup: SteadyStatePhase,
    measure: SteadyStatePhase,
    drain_ms: Float64,
    measurement: Option<SteadyStateMeasurement<R>>,
    reply: RowReply<R>,
    b: Benchmark,
    c: SteadyStateConfig,
    w: SteadyStateWorkload,
    database: Option<String>,
)
    requires
        suite::follows(
            RowNext::Row { row },
            RowStage::Cleaning { prepare, warmup, measure, drain_ms, measurement },
            reply,
            b,
            c,
            w,
            database,
        ),
    ensures
        row.name@ == w.name_text(),
        row.suite@ == "steady-state"@,
        row.database == database,
        row.sync == b.sync,
        settings_reported(row.task, w, b, c),
        row.phases.prepare == prepare,
        row.phases.warmup == warmup,
        row.phases.measure == measure,
        row.phases.drain.elapsed_ms == drain_ms,
        row.phases.drain.status == SteadyStateStatus::Completed,
        row.phases.cleanup.elapsed_ms == reply.elapsed(),
        row.drain is Some,
        row.drain->0.elapsed_ms == drain_ms,
        !row.drain->0.timed_out,
{
}

/// Each setting of a row stands under its own name.
pub open spec fn settings_reported(
    task: SteadyStateTask,
    w: SteadyStateWorkload,
    b: Benchmark,
    c: SteadyStateConfig,
) -> bool {
    &&& task.records == c.records
    &&& task.clients == b.clients
    &&& task.threads == b.threads
    &&& task.warmup_secs == c.warmup_secs
    &&& task.measurement_secs == c.measurement_secs
    &&& task.latency_sample_every == c.latency_sample_every
    &&& task.seed == c.seed
    &&& task.operation_mix_period == c.operation_mix_period
    &&& task.zipfian_exponent == c.zipfian_exponent
    &&& task.key_selection@ == w.key_selection_text()
    &&& task.operation_mix@ == w.mix_words(c)
    &&& task.worker_seed_derivation@ == "splitmix64(seed ^ worker_index)"@
}

/// A measured row is completed exactly where neither its window nor its cleanup failed, and
/// unsupported exactly where the window met an unsupported operation and was cleaned up; any other
/// row failed. A reason is given under the name that fits: the one of the window, and behind it that
/// of the cleanup with its causes.
pub proof fn lemma_reported_status<R>(
    row: SteadyStateResult<R>,
    prepare: SteadyStatePhase,
    warmup: SteadyStatePhase,
    measure: SteadyStatePhase,
    drain_ms: Float64,
    m: SteadyStateMeasurement<R>,
    reply: RowReply<R>,
    b: Benchmark,
    c: SteadyStateConfig,
    w: SteadyStateWorkload,
    database: Option<String>,
)
    requires
        suite::follows(
            RowNext::Row { row },
            RowStage::Cleaning { prepare, warmup, measure, drain_ms, measurement: Some(m) },
            reply,
            b,
            c,
            w,
            database,
        ),
    ensures
        row.status == SteadyStateStatus::Completed <==> m.failure_reason is None && !(
        reply is Failed),
        row.status == SteadyStateStatus::Unsupported <==> m.failure_reason is Some && m.failure_reason->0@
            == "NotSupported"@ && !(reply is Failed),
        row.phases.cleanup.status == SteadyStateStatus::Failed <==> reply is Failed,
        row.phases.cleanup.status != SteadyStateStatus::Failed ==> row.phases.cleanup.status
            == SteadyStateStatus::Completed,
        row.unsupported_reason is Some <==> row.status == SteadyStateStatus::Unsupported,
        row.failure_reason is Some <==> row.status == SteadyStateStatus::Failed,
        row.unsupported_reason is Some ==> row.unsupported_reason->0@ == "NotSupported"@,
        row.failure_reason is Some && !(reply is Failed) ==> row.failure_reason->0@
            == m.failure_reason->0@,
        reply matches RowReply::Failed { reason, .. } ==> row.failure_reason->0@ == (
        if m.failure_reason is Some {
            m.failure_reason->0@ + "; "@
        } else {
            Seq::empty()
        }) + "cleanup failed: "@ + reason.chain@,
{
    if reply is Failed {
        let chain = reply->Failed_reason.chain@;
        assert(Seq::<char>::empty() + "cleanup failed: "@ =~= "cleanup failed: "@);
        if m.failure_reason is Some {
            let first = m.failure_reason->0@;
            assert(first + "; "@ + ("cleanup failed: "@ + chain) =~= first + "; "@
                + "cleanup failed: "@ + chain);
        }
    }
}

/// An idle row measures nothing and can only fail in its cleanup: an unsupported removal makes it
/// unsupported, any other error fails it.
pub proof fn lemma_reported_idle<R>(
    row: SteadyStateResult<R>,
    prepare: SteadyStatePhase,
    warmup: SteadyStatePhase,
    measure: SteadyStatePhase,
    drain_ms: Float64,
    reply: RowReply<R>,
    b: Benchmark,
    c: SteadyStateConfig,
    w: SteadyStateWorkload,
    database: Option<String>,
)
    requires
        suite::follows(
            RowNext::Row { row },
            RowStage::Cleaning { prepare, warmup, measure, drain_ms, measurement: None },
            reply,
            b,
            c,
            w,
            database,
        ),
    ensures
        row.throughput is None,
        row.latency is None,
        row.operation_result is None,
        row.validation is Some,
        row.validation->0.errors == 0,
        row.validation->0.read_hits == 0,
        row.validation->0.read_misses == 0,
        row.validation->0.updates == 0,
        row.validation->0.scan_count_errors == 0,
        row.validation->0.observed_mix@ == "none"@,
        row.validation->0.expected_mix_prefix@ == "none"@,
        row.status == SteadyStateStatus::Completed <==> !(reply is Failed),
        row.status == SteadyStateStatus::Unsupported <==> (
        reply matches RowReply::Failed { reason, .. } && reason.message@ == "NotSupported"@),
        row.phases.cleanup.status == row.status,
        row.unsupported_reason is Some <==> row.status == SteadyStateStatus::Unsupported,
        row.unsupported_reason is Some ==> row.unsupported_reason->0@ == "NotSupported"@,
        row.failure_reason is Some <==> row.status == SteadyStateStatus::Failed,
        row.failure_reason is Some ==> row.failure_reason->0@ == "cleanup failed: "@
            + reply->Failed_reason.chain@,
{
}

/// The course of a row that meets no error: it is loaded, warmed up, measured, left to settle and
/// cleaned up, and its report gives each phase the time that it took and the measurement that came
/// of it. The measurement goes on where the warmup stopped, and only it is recorded.
pub proof fn lemma_row_course<R>(
    b: Benchmark,
    c: SteadyStateConfig,
    w: SteadyStateWorkload,
    database: Option<String>,
    loaded: RowReply<R>,
    warmed: RowReply<R>,
    measured: RowReply<R>,
    drained: RowReply<R>,
    cleaned: RowReply<R>,
    s1: RowStage<R>,
    a1: RowAction,
    s2: RowStage<R>,
    a2: RowAction,
    s3: RowStage<R>,
    a3: RowAction,
    s4: RowStage<R>,
    a4: RowAction,
    row: SteadyStateResult<R>,
)
    requires
        suite::follows(
            RowNext::Act { stage: s1, action: a1 },
            RowStage::Preparing,
            loaded,
            b,
            c,
            w,
            database,
        ),
        suite::follows(RowNext::Act { stage: s2, action: a2 }, s1, warmed, b, c, w, database),
        !(s2 is Aborting),
        suite::follows(RowNext::Act { stage: s3, action: a3 }, s2, measured, b, c, w, database),
        suite::follows(RowNext::Act { stage: s4, action: a4 }, s3, drained, b, c, w, database),
        suite::follows(RowNext::Row { row }, s4, cleaned, b, c, w, database),
    ensures
        !(loaded is Failed) && !(warmed is Failed) && !(measured is Failed),
        row.phases.prepare.elapsed_ms == loaded.elapsed(),
        row.phases.warmup.elapsed_ms == warmed.elapsed(),
        row.phases.measure.elapsed_ms == measured.elapsed(),
        row.phases.drain.elapsed_ms == drained.elapsed(),
        row.phases.cleanup.elapsed_ms == cleaned.elapsed(),
        row.phases.prepare.status == SteadyStateStatus::Completed,
        row.phases.warmup.status == SteadyStateStatus::Completed,
        row.phases.measure.status == SteadyStateStatus::Completed,
        w == SteadyStateWorkload::Idle ==> a1 == (RowAction::Sleep { secs: c.warmup_secs }) && a2
            == (RowAction::Sleep { secs: c.measurement_secs }),
        w != SteadyStateWorkload::Idle ==> {
            &&& a1 == if c.warmup_secs > 0 {
                RowAction::RunWindow { secs: c.warmup_secs, record: false, start_op_index: 0 }
            } else {
                RowAction::Nothing
            }
            &&& a2 == (RowAction::RunWindow {
                secs: c.measurement_secs,
                record: true,
                start_op_index: match warmed {
                    RowReply::Measured { measurement, .. } => measurement.completed,
                    _ => 0,
                },
            })
        },
        a3 == RowAction::Quiesce,
        a4 == (RowAction::Reset {
            completed_operations: match measured {
                RowReply::Measured { measurement, .. } => measurement.cleanup_upper,
                _ => c.records as u64,
            },
        }),
        measured matches RowReply::Measured { measurement, .. } ==> row.validation is Some
            && row.validation->0.errors == measurement.errors && (measurement.result matches Some(
            figures,
        ) ==> row.latency is Some && row.latency->0.p50_ms == figures.figures.p50_ms
            && row.latency->0.p95_ms == figures.figures.p95_ms && row.latency->0.p99_ms
            == figures.figures.p99_ms),
{
}

/// A warmup that failed is cleaned up and ends the row with its own error, unless the cleanup fails
/// too: then with that of the cleanup.
pub proof fn lemma_failed_warmup<R>(
    b: Benchmark,
    c: SteadyStateConfig,
    w: SteadyStateWorkload,
    database: Option<String>,
    prepare: SteadyStatePhase,
    elapsed_ms: Float64,
    warmup: SteadyStateMeasurement<R>,
    next: RowNext<R>,
    cleaned: RowReply<R>,
    last: RowNext<R>,
)
    requires
        warmup.failure_reason is Some,
        suite::follows(
            next,
            RowStage::Warming { prepare },
            RowReply::Measured { elapsed_ms, measurement: warmup },
            b,
            c,
            w,
            database,
        ),
        next matches RowNext::Act { stage, .. } && suite::follows(
            last,
            stage,
            cleaned,
            b,
            c,
            w,
            database,
        ),
    ensures
        next->action == (RowAction::Reset { completed_operations: warmup.cleanup_upper }),
        last is Error,
        cleaned matches RowReply::Failed { reason, .. } ==> last->Error_reason == reason,
        !(cleaned is Failed) ==> last->Error_reason.message@ == warmup.failure_reason->0@
            && last->Error_reason.chain@ == warmup.failure_reason->0@,
{
}

/// A row without a dataset of its own to start from loads it first; only an ingest row does not.
pub proof fn lemma_loaded_first(w: SteadyStateWorkload, c: SteadyStateConfig)
    ensures
        suite::prepare_action(w, c) is Nothing <==> w == SteadyStateWorkload::SustainedIngest,
        w != SteadyStateWorkload::SustainedIngest ==> suite::prepare_action(w, c) == (
        RowAction::Load { records: c.records }),
{
}

/// What a reset removes of a row that was loaded is what was loaded, whatever was done with it;
/// what it removes of an ingest row is what that may have created.
pub proof fn lemma_reset_removes_row(c: SteadyStateConfig, w: SteadyStateWorkload, n: u64)
    ensures
        match row::reset_range(c, w, n) {
            Ok(Some(removed)) => removed > 0 && removed as int == (
            if w == SteadyStateWorkload::SustainedIngest {
                n as int
            } else {
                c.records as int
            }),
            Ok(None) => if w == SteadyStateWorkload::SustainedIngest {
                n == 0
            } else {
                c.records == 0
            },
            Err(_) => w == SteadyStateWorkload::SustainedIngest && n > u32::MAX,
        },
{
}

/// A row that was not run to its end is reported without a measurement, with the one reason that it
/// is given, and with its settings.
pub proof fn lemma_unmeasured_rows<R>(
    row: SteadyStateResult<R>,
    b: Benchmark,
    database: Option<String>,
    c: SteadyStateConfig,
    w: SteadyStateWorkload,
    message: Seq<char>,
)
    ensures
        row::is_failed_row(row, b, database, c, w, message) ==> {
            &&& row.status == SteadyStateStatus::Failed
            &&& row.failure_reason is Some && row.failure_reason->0@ == message
            &&& row.unsupported_reason is None
            &&& row.validation is Some && row.validation->0.errors == 1
            &&& row.phases.measure.status == SteadyStateStatus::Failed
            &&& row.phases.prepare.status == SteadyStateStatus::Failed
            &&& row.phases.warmup.status == SteadyStateStatus::Failed
            &&& row.phases.drain.status == SteadyStateStatus::Failed
            &&& row.phases.cleanup.status == SteadyStateStatus::Failed
        },
        row::is_unsupported_row(row, b, database, c, w, message) ==> {
            &&& row.status == SteadyStateStatus::Unsupported
            &&& row.unsupported_reason is Some && row.unsupported_reason->0@ == message
            &&& row.failure_reason is None
            &&& row.validation is None
            &&& row.phases.measure.status == SteadyStateStatus::Unsupported
            &&& row.phases.prepare.status == SteadyStateStatus::Unsupported
            &&& row.phases.warmup.status == SteadyStateStatus::Unsupported
            &&& row.phases.drain.status == SteadyStateStatus::Unsupported
            &&& row.phases.cleanup.status == SteadyStateStatus::Unsupported
        },
        row::is_failed_row(row, b, database, c, w, message) || row::is_unsupported_row(
            row,
            b,
            database,
            c,
            w,
            message,
        ) ==> {
            &&& row.throughput is None && row.latency is None && row.drain is None
                && row.operation_result is None
            &&& row.name@ == w.name_text()
            &&& row.database == database
            &&& row.sync == b.sync
            &&& settings_reported(row.task, w, b, c)
        },
{
}

/// A measured row reports the shares of the operations that were observed, every read counting
/// whether it hit or missed, and the mix that the schedule has up to the completed operations.
pub proof fn lemma_reported_mixes<R>(
    row: SteadyStateResult<R>,
    prepare: SteadyStatePhase,
    warmup: SteadyStatePhase,
    measure: SteadyStatePhase,
    drain_ms: Float64,
    m: SteadyStateMeasurement<R>,
    reply: RowReply<R>,
    b: Benchmark,
    c: SteadyStateConfig,
    w: SteadyStateWorkload,
    database: Option<String>,
)
    requires
        suite::follows(
            RowNext::Row { row },
            RowStage::Cleaning { prepare, warmup, measure, drain_ms, measurement: Some(m) },
            reply,
            b,
            c,
            w,
            database,
        ),
    ensures
        row.validation is Some,
        row.validation->0.observed_mix@ == workload::shares_text(
            m.creates as nat,
            (m.read_hits + m.read_misses) as nat,
            m.updates as nat,
            m.scans as nat,
        ),
        w == SteadyStateWorkload::Idle ==> row.validation->0.expected_mix_prefix@ == "none"@,
        w != SteadyStateWorkload::Idle ==> {
            let n = m.completed as nat;
            row.validation->0.expected_mix_prefix@ == workload::mix_text(
                c.occurrences(w, SteadyStateOperation::Create, n),
                c.occurrences(w, SteadyStateOperation::Read, n),
                c.occurrences(w, SteadyStateOperation::Update, n),
                c.occurrences(w, SteadyStateOperation::Scan, n),
            )
        },
{
}

/// A row that was not run to its end took no time and observed nothing.
pub proof fn lemma_unmeasured_rows_empty<R>(
    row: SteadyStateResult<R>,
    b: Benchmark,
    database: Option<String>,
    c: SteadyStateConfig,
    w: SteadyStateWorkload,
    message: Seq<char>,
)
    ensures
        row::is_failed_row(row, b, database, c, w, message) || row::is_unsupported_row(
            row,
            b,
            database,
            c,
            w,
            message,
        ) ==> {
            &&& row.phases.prepare.elapsed_ms.bits == 0
            &&& row.phases.warmup.elapsed_ms.bits == 0
            &&& row.phases.measure.elapsed_ms.bits == 0
            &&& row.phases.drain.elapsed_ms.bits == 0
            &&& row.phases.cleanup.elapsed_ms.bits == 0
        },
        row::is_failed_row(row, b, database, c, w, message) ==> {
            let v = row.validation->0;
            &&& v.read_hits == 0 && v.read_misses == 0 && v.updates == 0 && v.scan_count_errors == 0
            &&& v.observed_mix@.len() == 0
            &&& w == SteadyStateWorkload::Idle ==> v.expected_mix_prefix@ == "none"@
            &&& w != SteadyStateWorkload::Idle ==> v.expected_mix_prefix@.len() == 0
        },
{
    reveal_strlit("");
    assert(workload::mix_pairs(0, 0, 0, 0) =~= Seq::empty());
    assert(c.occurrences(w, SteadyStateOperation::Create, 0) == 0);
    assert(c.occurrences(w, SteadyStateOperation::Read, 0) == 0);
    assert(c.occurrences(w, SteadyStateOperation::Update, 0) == 0);
    assert(c.occurrences(w, SteadyStateOperation::Scan, 0) == 0);
}

/// A row goes from stage to stage as long as nothing fails: an error while it is loaded, warmed up or
/// measured ends it with that error, a window that failed in the warmup has it cleaned up first, and
/// whatever the settling and the cleanup come to, the row is then reported.
pub proof fn lemma_row_goes_on<R>(
    next: RowNext<R>,
    stage: RowStage<R>,
    reply: RowReply<R>,
    b: Benchmark,
    c: SteadyStateConfig,
    w: SteadyStateWorkload,
    database: Option<String>,
)
    requires
        suite::follows(next, stage, reply, b, c, w, database),
    ensures
        reply matches RowReply::Failed { reason, .. } ==> (stage is Preparing || stage is Warming
            || stage is Aborting || stage is Measuring ==> next == RowNext::<R>::Error { reason }),
        !(reply is Failed) && stage is Preparing ==> next is Act && next->stage is Warming,
        reply is Done && stage is Warming ==> next is Act && next->stage is Measuring,
        stage is Warming ==> (reply matches RowReply::Measured { measurement, .. } ==> next is Act
            && (next->stage is Aborting <==> measurement.failure_reason is Some) && (
        next->stage is Measuring <==> measurement.failure_reason is None)),
        !(reply is Failed) && stage is Measuring ==> next is Act && next->stage is Draining,
        stage is Draining ==> next is Act && next->stage is Cleaning && next->action is Reset,
        stage is Cleaning ==> next is Row,
        !(reply is Failed) && stage is Aborting ==> next is Error,
{
}

/// What a window came to is kept until the row is reported; only the measured window is.
pub proof fn lemma_measurement_kept<R>(
    next: RowNext<R>,
    stage: RowStage<R>,
    reply: RowReply<R>,
    b: Benchmark,
    c: SteadyStateConfig,
    w: SteadyStateWorkload,
    database: Option<String>,
)
    requires
        suite::follows(next, stage, reply, b, c, w, database),
    ensures
        stage is Measuring && !(reply is Failed) ==> next->stage->Draining_measurement == (
        match reply {
            RowReply::Measured { measurement, .. } => Some(measurement),
            _ => None,
        }),
        stage is Draining ==> next->stage->Cleaning_measurement == stage->Draining_measurement,
        reply.elapsed() == (match reply {
            RowReply::Done { elapsed_ms } => elapsed_ms,
            RowReply::Measured { elapsed_ms, .. } => elapsed_ms,
            RowReply::Failed { elapsed_ms, .. } => elapsed_ms,
        }),
{
}

} // verus!
