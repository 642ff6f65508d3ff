//! What the perf gate finds wrong with a row, said where it is so.
use crate::artifact;
use crate::artifact::{
    SteadyStateDrain, SteadyStateLatency, SteadyStatePhase, SteadyStateRow, SteadyStateTask,
    SteadyStateThroughput, SteadyStateValidation,
};
use crate::binary64::Float64;
use crate::figure;
use crate::laws::change;
use crate::laws::change::one_if;
use crate::steadygate;
use crate::steadygate::SteadyStateGateConfig;
use crate::text;
use vstd::prelude::*;

verus! {

proof fn lemma_noted2(c1: bool, m1: Seq<char>, c2: bool, m2: Seq<char>)
    ensures
        ({
            let list = figure::note(c1, m1) + figure::note(c2, m2);
            &&& list.len() == one_if(c1) + one_if(c2)
            &&& c1 ==> list.contains(m1)
            &&& c2 ==> list.contains(m2)
        }),
{
    let list = figure::note(c1, m1) + figure::note(c2, m2);
    if c1 {
        assert(list[0int] == m1);
    }
    if c2 {
        assert(list[(one_if(c1)) as int] == m2);
    }
}

proof fn lemma_noted3(c1: bool, m1: Seq<char>, c2: bool, m2: Seq<char>, c3: bool, m3: Seq<char>)
    ensures
        ({
            let list = figure::note(c1, m1) + figure::note(c2, m2) + figure::note(c3, m3);
            &&& list.len() == one_if(c1) + one_if(c2) + one_if(c3)
            &&& c1 ==> list.contains(m1)
            &&& c2 ==> list.contains(m2)
            &&& c3 ==> list.contains(m3)
        }),
{
    let list = figure::note(c1, m1) + figure::note(c2, m2) + figure::note(c3, m3);
    if c1 {
        assert(list[0int] == m1);
    }
    if c2 {
        assert(list[(one_if(c1)) as int] == m2);
    }
    if c3 {
        assert(list[(one_if(c1) + one_if(c2)) as int] == m3);
    }
}

proof fn lemma_noted4(c1: bool, m1: Seq<char>, c2: bool, m2: Seq<char>, c3: bool, m3: Seq<char>, c4: bool, m4: Seq<char>)
    ensures
        ({
            let list = figure::note(c1, m1) + figure::note(c2, m2) + figure::note(c3, m3) + figure::note(c4, m4);
            &&& list.len() == one_if(c1) + one_if(c2) + one_if(c3) + one_if(c4)
            &&& c1 ==> list.contains(m1)
            &&& c2 ==> list.contains(m2)
            &&& c3 ==> list.contains(m3)
            &&& c4 ==> list.contains(m4)
        }),
{
    let list = figure::note(c1, m1) + figure::note(c2, m2) + figure::note(c3, m3) + figure::note(c4, m4);
    if c1 {
        assert(list[0int] == m1);
    }
    if c2 {
        assert(list[(one_if(c1)) as int] == m2);
    }
    if c3 {
        assert(list[(one_if(c1) + one_if(c2)) as int] == m3);
    }
    if c4 {
        assert(list[(one_if(c1) + one_if(c2) + one_if(c3)) as int] == m4);
    }
}

proof fn lemma_noted6(c1: bool, m1: Seq<char>, c2: bool, m2: Seq<char>, c3: bool, m3: Seq<char>, c4: bool, m4: Seq<char>, c5: bool, m5: Seq<char>, c6: bool, m6: Seq<char>)
    ensures
        ({
            let list = figure::note(c1, m1) + figure::note(c2, m2) + figure::note(c3, m3) + figure::note(c4, m4) + figure::note(c5, m5) + figure::note(c6, m6);
            &&& list.len() == one_if(c1) + one_if(c2) + one_if(c3) + one_if(c4) + one_if(c5) + one_if(c6)
            &&& c1 ==> list.contains(m1)
            &&& c2 ==> list.contains(m2)
            &&& c3 ==> list.contains(m3)
            &&& c4 ==> list.contains(m4)
            &&& c5 ==> list.contains(m5)
            &&& c6 ==> list.contains(m6)
        }),
{
    let list = figure::note(c1, m1) + figure::note(c2, m2) + figure::note(c3, m3) + figure::note(c4, m4) + figure::note(c5, m5) + figure::note(c6, m6);
    if c1 {
        assert(list[0int] == m1);
    }
    if c2 {
        assert(list[(one_if(c1)) as int] == m2);
    }
    if c3 {
        assert(list[(one_if(c1) + one_if(c2)) as int] == m3);
    }
    if c4 {
        assert(list[(one_if(c1) + one_if(c2) + one_if(c3)) as int] == m4);
    }
    if c5 {
        assert(list[(one_if(c1) + one_if(c2) + one_if(c3) + one_if(c4)) as int] == m5);
    }
    if c6 {
        assert(list[(one_if(c1) + one_if(c2) + one_if(c3) + one_if(c4) + one_if(c5)) as int] == m6);
    }
}
/// A finding about a row names the artifact and the row.
pub open spec fn about(source: Seq<char>, row: Seq<char>, finding: Seq<char>) -> Seq<char> {
    source + " "@ + row + finding
}

/// A task is found wanting once for each thing that it lacks, and each finding says which.
pub proof fn lemma_task_findings(row: Seq<char>, task: SteadyStateTask, source: Seq<char>)
    ensures
        ({
            let list = artifact::task_failures(row, task, source);
            let alone = task.clients == 0 || task.threads == 0;
            let unnamed = task.worker_seed_derivation@.len() == 0 || task.operation_mix@.len() == 0
                || task.key_selection@.len() == 0;
            let exponent = task.zipfian_exponent.invalid_quantity_spec();
            &&& list.len() == one_if(task.records == 0) + one_if(alone) + one_if(
                task.measurement_secs == 0,
            ) + one_if(unnamed) + one_if(task.operation_mix_period == 0) + one_if(exponent)
            &&& task.records == 0 ==> list.contains(about(source, row, " has zero records"@))
            &&& alone ==> list.contains(about(source, row, " has invalid concurrency"@))
            &&& task.measurement_secs == 0 ==> list.contains(
                about(source, row, " has zero measurement duration"@),
            )
            &&& unnamed ==> list.contains(about(source, row, " is missing task metadata"@))
            &&& task.operation_mix_period == 0 ==> list.contains(
                about(source, row, " has zero operation mix period"@),
            )
            &&& exponent ==> list.contains(about(source, row, " has invalid Zipfian exponent"@))
        }),
{
    lemma_noted6(
        task.records == 0,
        artifact::says(source, row, " has zero records"@),
        task.clients == 0 || task.threads == 0,
        artifact::says(source, row, " has invalid concurrency"@),
        task.measurement_secs == 0,
        artifact::says(source, row, " has zero measurement duration"@),
        task.worker_seed_derivation@.len() == 0 || task.operation_mix@.len() == 0
            || task.key_selection@.len() == 0,
        artifact::says(source, row, " is missing task metadata"@),
        task.operation_mix_period == 0,
        artifact::says(source, row, " has zero operation mix period"@),
        task.zipfian_exponent.invalid_quantity_spec(),
        artifact::says(source, row, " has invalid Zipfian exponent"@),
    );
}

/// A phase is found wanting for its time, for a status that none has, and for not being completed
/// in a completed row; each finding names the phase.
pub proof fn lemma_phase_findings(
    row: Seq<char>,
    source: Seq<char>,
    row_status: Seq<char>,
    phase_name: Seq<char>,
    phase: SteadyStatePhase,
)
    ensures
        ({
            let list = artifact::phase_failures(row, source, row_status, phase_name, phase);
            let timeless = phase.elapsed_ms.invalid_quantity_spec();
            let unknown = phase.status@ != "completed"@ && phase.status@ != "unsupported"@
                && phase.status@ != "failed"@;
            let behind = row_status == "completed"@ && phase.status@ != "completed"@;
            &&& list.len() == one_if(timeless) + one_if(unknown) + one_if(behind)
            &&& timeless ==> list.contains(
                about(source, row, " has invalid "@) + phase_name + " phase time"@,
            )
            &&& unknown ==> list.contains(
                about(source, row, " has invalid "@) + phase_name + " phase status "@
                    + figure::quoted_text(phase.status@),
            )
            &&& behind ==> list.contains(
                about(source, row, " completed row has non-completed "@) + phase_name + " phase"@,
            )
        }),
{
    lemma_noted3(
        phase.elapsed_ms.invalid_quantity_spec(),
        artifact::says(source, row, " has invalid "@) + phase_name + " phase time"@,
        !artifact::known_status(phase.status@),
        artifact::says(source, row, " has invalid "@) + phase_name + " phase status "@
            + figure::quoted_text(phase.status@),
        row_status == "completed"@ && phase.status@ != "completed"@,
        artifact::says(source, row, " completed row has non-completed "@) + phase_name + " phase"@,
    );
}

/// The phases are checked under their own names, in the order in which they run.
pub proof fn lemma_phases_named(row_name: Seq<char>, row: SteadyStateRow, source: Seq<char>)
    ensures
        ({
            let of = |name: Seq<char>, phase: SteadyStatePhase|
                artifact::phase_failures(row_name, source, row.status@, name, phase);
            artifact::phases_failures(row_name, row, source) == of("prepare"@, row.phases.prepare)
                + of("warmup"@, row.phases.warmup) + of("measure"@, row.phases.measure) + of(
                "drain"@,
                row.phases.drain,
            ) + of("cleanup"@, row.phases.cleanup)
        }),
{
}

/// Throughput is found wanting where nothing was completed, where the rate is no positive number,
/// and where the seconds are missing or one of them is no rate.
pub proof fn lemma_throughput_findings(
    name: Seq<char>,
    t: SteadyStateThroughput,
    source: Seq<char>,
)
    ensures
        ({
            let list = steadygate::throughput_failures(name, t, source);
            let rate = t.ops_per_sec.value;
            let idle = t.completed_operations == 0;
            let no_rate = !(Float64::zero_spec().less(rate) && rate.is_finite_spec());
            let none = t.per_second_windows@.len() == 0;
            let bad = exists|i: int|
                0 <= i < t.per_second_windows@.len() && (
                #[trigger] t.per_second_windows@[i]).invalid_quantity_spec();
            &&& list.len() == one_if(idle) + one_if(no_rate) + one_if(none) + one_if(bad)
            &&& idle ==> list.contains(about(source, name, " completed zero operations"@))
            &&& no_rate ==> list.contains(about(source, name, " has invalid OPS"@))
            &&& none ==> list.contains(about(source, name, " is missing throughput windows"@))
            &&& bad ==> list.contains(about(source, name, " has invalid throughput windows"@))
        }),
{
    lemma_noted4(
        t.completed_operations == 0,
        artifact::says(source, name, " completed zero operations"@),
        t.ops_per_sec.value.less_or_equal(Float64::zero_spec())
            || !t.ops_per_sec.value.is_finite_spec(),
        artifact::says(source, name, " has invalid OPS"@),
        t.per_second_windows@.len() == 0,
        artifact::says(source, name, " is missing throughput windows"@),
        exists|i: int|
            0 <= i < t.per_second_windows@.len() && (
            #[trigger] t.per_second_windows@[i]).invalid_quantity_spec(),
        artifact::says(source, name, " has invalid throughput windows"@),
    );
}

/// Latency is found wanting where it should have been sampled and was not, where a quantile is no
/// time, and where the quantiles do not rise.
pub proof fn lemma_latency_findings(
    name: Seq<char>,
    l: SteadyStateLatency,
    every: u64,
    source: Seq<char>,
)
    ensures
        ({
            let list = steadygate::latency_row_failures(name, l, every, source);
            let unsampled = every > 0 && l.sample_count == 0;
            let no_time = l.p50_ms.invalid_quantity_spec() || l.p95_ms.value.invalid_quantity_spec()
                || l.p99_ms.value.invalid_quantity_spec();
            let falls = l.p95_ms.value.less(l.p50_ms) || l.p99_ms.value.less(l.p95_ms.value);
            &&& list.len() == one_if(unsampled) + one_if(no_time) + one_if(falls)
            &&& unsampled ==> list.contains(about(source, name, " is missing latency samples"@))
            &&& no_time ==> list.contains(about(source, name, " has invalid latency"@))
            &&& falls ==> list.contains(about(source, name, " has unordered latency quantiles"@))
        }),
{
    lemma_noted3(
        every > 0 && l.sample_count == 0,
        artifact::says(source, name, " is missing latency samples"@),
        l.p50_ms.invalid_quantity_spec() || l.p95_ms.value.invalid_quantity_spec()
            || l.p99_ms.value.invalid_quantity_spec(),
        artifact::says(source, name, " has invalid latency"@),
        l.p95_ms.value.less(l.p50_ms) || l.p99_ms.value.less(l.p95_ms.value),
        artifact::says(source, name, " has unordered latency quantiles"@),
    );
}

/// A drain is found wanting where it is missing, where its time is none, and where it timed out.
pub proof fn lemma_drain_findings(
    name: Seq<char>,
    drain: Option<SteadyStateDrain>,
    source: Seq<char>,
)
    ensures
        ({
            let list = steadygate::drain_failures(name, drain, source);
            &&& drain is None ==> list == seq![about(source, name, " is missing drain"@)]
            &&& drain matches Some(d) ==> {
                &&& list.len() == one_if(d.elapsed_ms.invalid_quantity_spec()) + one_if(d.timed_out)
                &&& d.elapsed_ms.invalid_quantity_spec() ==> list.contains(
                    about(source, name, " has invalid drain elapsed time"@),
                )
                &&& d.timed_out ==> list.contains(about(source, name, " drain timed out"@))
            }
        }),
{
    if let Some(d) = drain {
        lemma_noted2(
            d.elapsed_ms.invalid_quantity_spec(),
            artifact::says(source, name, " has invalid drain elapsed time"@),
            d.timed_out,
            artifact::says(source, name, " drain timed out"@),
        );
    }
}

/// Errors are found with their number, and a mix that is not reported is missed.
pub proof fn lemma_validation_findings(
    name: Seq<char>,
    v: SteadyStateValidation,
    source: Seq<char>,
)
    ensures
        steadygate::error_failures(name, v, source) == if v.errors > 0 {
            seq![
                about(source, name, " has "@) + text::decimal(v.errors as nat)
                    + " validation errors"@,
            ]
        } else {
            Seq::empty()
        },
        steadygate::mix_failures(name, v, source) == if v.observed_mix@.len() == 0
            || v.expected_mix_prefix@.len() == 0 {
            seq![about(source, name, " is missing validation mix details"@)]
        } else {
            Seq::empty()
        },
{
}

/// A row that did not complete is found wanting once, by what became of it, with the reason that it
/// gives; an optional row may be unsupported, but not without a reason.
pub proof fn lemma_status_findings(
    name: Seq<char>,
    row: SteadyStateRow,
    source: Seq<char>,
    cfg: SteadyStateGateConfig,
)
    requires
        row.status@ != "completed"@,
    ensures
        ({
            let list = steadygate::status_failures(name, row, source, cfg);
            let optional = text::texts(cfg.optional_rows@).contains(name);
            let given = |reason: Option<String>|
                if reason is Some {
                    reason->0@
                } else {
                    "missing reason"@
                };
            if row.status@ == "unsupported"@ {
                if !optional {
                    list == seq![
                        about(source, name, " is unsupported: "@) + given(row.unsupported_reason),
                    ]
                } else if row.unsupported_reason is None || row.unsupported_reason->0@.len() == 0 {
                    list == seq![about(source, name, " is unsupported without a reason"@)]
                } else {
                    list.len() == 0
                }
            } else if row.status@ == "failed"@ {
                list == seq![about(source, name, " failed: "@) + given(row.failure_reason)]
            } else {
                list == seq![
                    about(source, name, " has unknown status "@) + figure::quoted_text(row.status@),
                ]
            }
        }),
{
    reveal_strlit("completed");
    reveal_strlit("unsupported");
    reveal_strlit("failed");
    assert("unsupported"@.len() != "failed"@.len());
}

/// Two rows are found not to be comparable once for each thing in which they differ, and each finding
/// says which; a database that may differ is no finding.
pub proof fn lemma_comparison_findings(
    name: Seq<char>,
    b: SteadyStateRow,
    c: SteadyStateRow,
    allow: bool,
)
    ensures
        ({
            let list = steadygate::comparison_failures(name, b, c, allow);
            let database = !allow && !b.database.equals(c.database);
            let sync = b.sync != c.sync;
            let task = !steadygate::same_task(b.task, c.task);
            &&& list.len() == one_if(database) + one_if(sync) + one_if(task)
            &&& database ==> list.contains(name + " database differs between baseline and current"@)
            &&& sync ==> list.contains(name + " sync setting differs between baseline and current"@)
            &&& task ==> list.contains(
                name + " task metadata differs between baseline and current"@,
            )
        }),
{
    lemma_noted3(
        !allow && !b.database.equals(c.database),
        name + " database differs between baseline and current"@,
        b.sync != c.sync,
        name + " sync setting differs between baseline and current"@,
        !steadygate::same_task(b.task, c.task),
        name + " task metadata differs between baseline and current"@,
    );
}

/// An optional row that is unsupported in one artifact alone is found, with both statuses.
pub proof fn lemma_state_findings(
    name: Seq<char>,
    b: SteadyStateRow,
    c: SteadyStateRow,
    q: steadygate::RowChanges,
    cfg: SteadyStateGateConfig,
)
    requires
        name != "idle"@,
        !(b.status@ == "completed"@ && c.status@ == "completed"@),
    ensures
        ({
            let optional = text::texts(cfg.optional_rows@).contains(name);
            let differs = optional && (b.status@ == "unsupported"@) != (c.status@
                == "unsupported"@);
            steadygate::compared_failures(name, b, c, q, cfg) == if differs {
                seq![
                    name + " optional unsupported state differs: baseline="@ + b.status@
                        + ", current="@ + c.status@,
                ]
            } else {
                Seq::empty()
            }
        }),
{
}

/// The line of a row: an idle row has no figures, an optional row that is unsupported in both
/// artifacts is skipped, and any row that did not complete shows the status of the baseline before
/// the current one.
pub proof fn lemma_row_lines(
    name: Seq<char>,
    b: SteadyStateRow,
    c: SteadyStateRow,
    q: steadygate::RowChanges,
    cfg: SteadyStateGateConfig,
)
    requires
        !(b.status@ == "completed"@ && c.status@ == "completed"@) || name == "idle"@,
    ensures
        ({
            let line = steadygate::row_line(name, b, c, q, cfg);
            let optional = text::texts(cfg.optional_rows@).contains(name);
            if name == "idle"@ {
                line == "- idle: no client operations; phase timings only\n"@
            } else if optional && b.status@ == "unsupported"@ && c.status@ == "unsupported"@ {
                line == "- "@ + name + ": optional unsupported; skipped\n"@
            } else {
                line == "- "@ + name + ": baseline status="@ + b.status@ + ", current status="@
                    + c.status@ + "\n"@
            }
        }),
{
}

/// A gate is refused for a negative limit or for having no rows, in this order.
pub proof fn lemma_config_findings(cfg: SteadyStateGateConfig)
    ensures
        match steadygate::gate_config_error(cfg) {
            Some(e) => {
                ||| cfg.max_ops_regression_pct.value.less(Float64::zero_spec()) && e
                    == "--max-ops-regression-pct cannot be negative"@
                ||| !cfg.max_ops_regression_pct.value.less(Float64::zero_spec())
                    && cfg.max_latency_regression_pct.value.less(Float64::zero_spec()) && e
                    == "--max-latency-regression-pct cannot be negative"@
                ||| !cfg.max_ops_regression_pct.value.less(Float64::zero_spec())
                    && !cfg.max_latency_regression_pct.value.less(Float64::zero_spec())
                    && cfg.rows@.len() == 0 && e == "at least one steady-state row is required"@
            },
            None => cfg.rows@.len() > 0 && !cfg.max_ops_regression_pct.value.less(
                Float64::zero_spec(),
            ) && !cfg.max_latency_regression_pct.value.less(Float64::zero_spec()),
        },
{
}

/// A row that became too slow is found once for its rate and once for each percentile that rose too
/// far, each by its own name, with its own change and its limit.
pub proof fn lemma_regression_findings(
    name: Seq<char>,
    b: SteadyStateRow,
    c: SteadyStateRow,
    q: steadygate::RowChanges,
    cfg: SteadyStateGateConfig,
)
    requires
        !cfg.max_ops_regression_pct.value.less(Float64::zero_spec()),
        !cfg.max_latency_regression_pct.value.less(Float64::zero_spec()),
    ensures
        ({
            let list = steadygate::regressions(name, b, c, q, cfg);
            let (x, y) = (b.throughput->0.ops_per_sec, c.throughput->0.ops_per_sec);
            let (l, m) = (b.latency->0, c.latency->0);
            let ops = cfg.max_ops_regression_pct;
            let latency = cfg.max_latency_regression_pct;
            let fell = change::fell(y.value, x.value, q.ops.value, ops.value);
            let p95 = change::rose(m.p95_ms.value, l.p95_ms.value, q.p95.value, latency.value);
            let p99 = change::rose(m.p99_ms.value, l.p99_ms.value, q.p99.value, latency.value);
            &&& list.len() == one_if(fell) + one_if(p95) + one_if(p99)
            &&& fell ==> list.contains(
                name + " OPS regressed "@ + figure::change_fixed(y.value, x.value, q.ops)
                    + "%, below -"@ + ops.fixed@ + "%"@,
            )
            &&& p95 ==> list.contains(
                name + " p95 regressed "@ + figure::change_fixed(
                    m.p95_ms.value,
                    l.p95_ms.value,
                    q.p95,
                ) + "%, above "@ + latency.fixed@ + "%"@,
            )
            &&& p99 ==> list.contains(
                name + " p99 regressed "@ + figure::change_fixed(
                    m.p99_ms.value,
                    l.p99_ms.value,
                    q.p99,
                ) + "%, above "@ + latency.fixed@ + "%"@,
            )
        }),
{
    let (x, y) = (b.throughput->0.ops_per_sec, c.throughput->0.ops_per_sec);
    let (l, m) = (b.latency->0, c.latency->0);
    let ops = cfg.max_ops_regression_pct;
    let latency = cfg.max_latency_regression_pct;
    change::lemma_change_judged(y.value, x.value, q.ops.value, ops.value);
    change::lemma_change_judged(m.p95_ms.value, l.p95_ms.value, q.p95.value, latency.value);
    change::lemma_change_judged(m.p99_ms.value, l.p99_ms.value, q.p99.value, latency.value);
    lemma_noted3(
        change::fell(y.value, x.value, q.ops.value, ops.value),
        steadygate::regression(name, " OPS regressed "@, y, x, q.ops, "%, below -"@, ops),
        change::rose(m.p95_ms.value, l.p95_ms.value, q.p95.value, latency.value),
        steadygate::regression(
            name,
            " p95 regressed "@,
            m.p95_ms,
            l.p95_ms,
            q.p95,
            "%, above "@,
            latency,
        ),
        change::rose(m.p99_ms.value, l.p99_ms.value, q.p99.value, latency.value),
        steadygate::regression(
            name,
            " p99 regressed "@,
            m.p99_ms,
            l.p99_ms,
            q.p99,
            "%, above "@,
            latency,
        ),
    );
}

/// An idle row is found wanting once for each thing that it must not report, and each finding says
/// which.
pub proof fn lemma_idle_findings(name: Seq<char>, row: SteadyStateRow, source: Seq<char>)
    ensures
        ({
            let list = steadygate::idle_failures(name, row, source);
            &&& row.validation is None ==> list == seq![
                about(source, name, " is missing validation"@),
            ]
            &&& row.validation matches Some(v) ==> {
                let busy = v.read_hits != 0 || v.read_misses != 0 || v.updates != 0
                    || v.scan_count_errors != 0;
                let mixed = v.observed_mix@ != "none"@ || v.expected_mix_prefix@ != "none"@;
                let measured = row.throughput is Some || row.latency is Some;
                let undrained = row.drain is None || row.drain->0.elapsed_ms.invalid_quantity_spec()
                    || row.drain->0.timed_out;
                &&& list.len() == one_if(v.errors > 0) + one_if(busy) + one_if(mixed) + one_if(
                    measured,
                ) + one_if(undrained)
                &&& busy ==> list.contains(about(source, name, " reports client operations"@))
                &&& mixed ==> list.contains(about(source, name, " has invalid idle operation mix"@))
                &&& measured ==> list.contains(
                    about(source, name, " must not report throughput or latency"@),
                )
                &&& undrained ==> list.contains(
                    if row.drain is None {
                        about(source, name, " is missing drain"@)
                    } else {
                        about(source, name, " has invalid drain"@)
                    },
                )
            }
        }),
{
    if let Some(v) = row.validation {
        let list = steadygate::idle_failures(name, row, source);
        let busy = v.read_hits != 0 || v.read_misses != 0 || v.updates != 0 || v.scan_count_errors
            != 0;
        let mixed = v.observed_mix@ != "none"@ || v.expected_mix_prefix@ != "none"@;
        let measured = row.throughput is Some || row.latency is Some;
        let a = one_if(v.errors > 0) as int;
        if busy {
            assert(list[a] == about(source, name, " reports client operations"@));
        }
        let a = a + one_if(busy);
        if mixed {
            assert(list[a] == about(source, name, " has invalid idle operation mix"@));
        }
        let a = a + one_if(mixed);
        if measured {
            assert(list[a] == about(source, name, " must not report throughput or latency"@));
        }
        let a = a + one_if(measured);
        if row.drain is None {
            assert(list[a] == about(source, name, " is missing drain"@));
        } else if row.drain->0.elapsed_ms.invalid_quantity_spec() || row.drain->0.timed_out {
            assert(list[a] == about(source, name, " has invalid drain"@));
        }
    }
}

} // verus!
