//! The perf gate over steady-state artifacts.
use crate::artifact;
use crate::artifact::{
    blank, required_steady_state_row, said, validate_steady_state_phases,
    validate_steady_state_task, JsonValue, SteadyStateDrain, SteadyStateLatency, SteadyStateRow,
    SteadyStateRows, SteadyStateTask, SteadyStateThroughput, SteadyStateValidation,
};
use crate::binary64::Float64;
use crate::failure::Failure;
use crate::figure;
use crate::figure::{add_note, change, conclude, quoted, Change, Evaluation, Figure};
use crate::text;
use crate::text::{cat2, cat3, cat4, cat5, decimal_text, holds_text, same_text, trimmed};
use vstd::prelude::*;

verus! {

/// What the perf gate asks for.
pub struct SteadyStateGateConfig {
    pub rows: Vec<String>,
    pub optional_rows: Vec<String>,
    pub max_ops_regression_pct: Figure,
    pub max_latency_regression_pct: Figure,
    pub allow_database_mismatch: bool,
}

/// The artifacts that the perf gate compares.
pub struct SteadyStateGateInputs {
    pub baseline: SteadyStateRows,
    pub current: SteadyStateRows,
}

/// The changes of a row, computed by the caller.
pub struct RowChanges {
    pub ops: Change,
    pub p95: Change,
    pub p99: Change,
}

pub open spec fn gate_config_error(cfg: SteadyStateGateConfig) -> Option<Seq<char>> {
    if cfg.max_ops_regression_pct.value.less(Float64::zero_spec()) {
        Some("--max-ops-regression-pct cannot be negative"@)
    } else if cfg.max_latency_regression_pct.value.less(Float64::zero_spec()) {
        Some("--max-latency-regression-pct cannot be negative"@)
    } else if cfg.rows@.len() == 0 {
        Some("at least one steady-state row is required"@)
    } else {
        None
    }
}

/// Refuses a gate that cannot be asked for.
pub fn validate_steady_state_config(cfg: &SteadyStateGateConfig) -> (r: Result<(), Failure>)
    ensures
        match (r, gate_config_error(*cfg)) {
            (Ok(()), None) => true,
            (Err(e), Some(t)) => e@ == t,
            _ => false,
        },
{
    if cfg.max_ops_regression_pct.value.lt(Float64::zero()) {
        return Err(Failure::new("--max-ops-regression-pct cannot be negative".to_owned()));
    }
    if cfg.max_latency_regression_pct.value.lt(Float64::zero()) {
        return Err(
            Failure::new("--max-latency-regression-pct cannot be negative".to_owned()),
        );
    }
    if cfg.rows.len() == 0 {
        return Err(Failure::new("at least one steady-state row is required".to_owned()));
    }
    Ok(())
}

pub open spec fn is_optional(row: Seq<char>, cfg: SteadyStateGateConfig) -> bool {
    text::texts(cfg.optional_rows@).contains(row)
}

/// Whether a row is unsupported and may be.
pub fn is_optional_unsupported(row_name: &str, status: &str, cfg: &SteadyStateGateConfig) -> (r: bool)
    ensures
        r == (status@ == "unsupported"@ && is_optional(row_name@, *cfg)),
{
    same_text(status, "unsupported") && holds_text(&cfg.optional_rows, row_name)
}

/// The name of a database; one that is no text has none.
pub open spec fn label_of(database: JsonValue) -> Seq<char> {
    match database.text() {
        Some(name) => name,
        None => "unknown"@,
    }
}

/// The name of a database.
pub fn database_label(database: &JsonValue) -> (r: &str)
    ensures
        r@ == label_of(*database),
{
    match database.as_text() {
        Some(name) => name,
        None => "unknown",
    }
}

pub open spec fn reason_or(reason: Option<String>) -> Seq<char> {
    match reason {
        Some(r) => r@,
        None => "missing reason"@,
    }
}

fn reason_text(reason: &Option<String>) -> (r: &str)
    ensures
        r@ == reason_or(*reason),
{
    match reason {
        Some(text) => text.as_str(),
        None => "missing reason",
    }
}

/// What is wrong with a completed idle row: it performs nothing and measures nothing.
pub open spec fn idle_failures(name: Seq<char>, row: SteadyStateRow, source: Seq<char>) -> Seq<
    Seq<char>,
> {
    match row.validation {
        None => seq![artifact::says(source, name, " is missing validation"@)],
        Some(v) => error_failures(name, v, source) + figure::note(
            v.read_hits != 0 || v.read_misses != 0 || v.updates != 0 || v.scan_count_errors != 0,
            artifact::says(source, name, " reports client operations"@),
        ) + figure::note(
            v.observed_mix@ != "none"@ || v.expected_mix_prefix@ != "none"@,
            artifact::says(source, name, " has invalid idle operation mix"@),
        ) + figure::note(
            row.throughput is Some || row.latency is Some,
            artifact::says(source, name, " must not report throughput or latency"@),
        ) + (match row.drain {
            None => seq![artifact::says(source, name, " is missing drain"@)],
            Some(d) => figure::note(
                d.elapsed_ms.invalid_quantity_spec() || d.timed_out,
                artifact::says(source, name, " has invalid drain"@),
            ),
        }),
    }
}

pub open spec fn error_failures(name: Seq<char>, v: SteadyStateValidation, source: Seq<char>) -> Seq<
    Seq<char>,
> {
    figure::note(
        v.errors > 0,
        artifact::says(source, name, " has "@) + text::decimal(v.errors as nat)
            + " validation errors"@,
    )
}

pub open spec fn throughput_failures(
    name: Seq<char>,
    t: SteadyStateThroughput,
    source: Seq<char>,
) -> Seq<Seq<char>> {
    figure::note(
        t.completed_operations == 0,
        artifact::says(source, name, " completed zero operations"@),
    ) + figure::note(
        t.ops_per_sec.value.less_or_equal(Float64::zero_spec())
            || !t.ops_per_sec.value.is_finite_spec(),
        artifact::says(source, name, " has invalid OPS"@),
    ) + figure::note(
        t.per_second_windows@.len() == 0,
        artifact::says(source, name, " is missing throughput windows"@),
    ) + figure::note(
        exists|i: int|
            0 <= i < t.per_second_windows@.len() && (
            #[trigger] t.per_second_windows@[i]).invalid_quantity_spec(),
        artifact::says(source, name, " has invalid throughput windows"@),
    )
}

pub open spec fn mix_failures(name: Seq<char>, v: SteadyStateValidation, source: Seq<char>) -> Seq<
    Seq<char>,
> {
    figure::note(
        v.observed_mix@.len() == 0 || v.expected_mix_prefix@.len() == 0,
        artifact::says(source, name, " is missing validation mix details"@),
    )
}

pub open spec fn latency_row_failures(
    name: Seq<char>,
    l: SteadyStateLatency,
    every: u64,
    source: Seq<char>,
) -> Seq<Seq<char>> {
    figure::note(
        every > 0 && l.sample_count == 0,
        artifact::says(source, name, " is missing latency samples"@),
    ) + figure::note(
        l.p50_ms.invalid_quantity_spec() || l.p95_ms.value.invalid_quantity_spec()
            || l.p99_ms.value.invalid_quantity_spec(),
        artifact::says(source, name, " has invalid latency"@),
    ) + figure::note(
        l.p95_ms.value.less(l.p50_ms) || l.p99_ms.value.less(l.p95_ms.value),
        artifact::says(source, name, " has unordered latency quantiles"@),
    )
}

pub open spec fn drain_failures(name: Seq<char>, drain: Option<SteadyStateDrain>, source: Seq<char>) -> Seq<
    Seq<char>,
> {
    match drain {
        None => seq![artifact::says(source, name, " is missing drain"@)],
        Some(d) => figure::note(
            d.elapsed_ms.invalid_quantity_spec(),
            artifact::says(source, name, " has invalid drain elapsed time"@),
        ) + figure::note(
            d.timed_out,
            artifact::says(source, name, " drain timed out"@),
        ),
    }
}

pub open spec fn latency_on_failures(name: Seq<char>, row: SteadyStateRow, source: Seq<char>) -> Seq<
    Seq<char>,
> {
    match row.latency {
        None => seq![artifact::says(source, name, " is missing latency"@)],
        Some(l) => latency_row_failures(name, l, row.task.latency_sample_every, source)
            + drain_failures(name, row.drain, source),
    }
}

pub open spec fn validation_on_failures(
    name: Seq<char>,
    row: SteadyStateRow,
    source: Seq<char>,
) -> Seq<Seq<char>> {
    match row.validation {
        None => seq![artifact::says(source, name, " is missing validation"@)],
        Some(v) => error_failures(name, v, source) + mix_failures(name, v, source)
            + latency_on_failures(name, row, source),
    }
}

/// What is wrong with a completed row: throughput, validation, latency and drain in turn, up to the
/// first that is missing.
pub open spec fn completed_failures(name: Seq<char>, row: SteadyStateRow, source: Seq<char>) -> Seq<
    Seq<char>,
> {
    match row.throughput {
        None => seq![artifact::says(source, name, " is missing throughput"@)],
        Some(t) => throughput_failures(name, t, source) + validation_on_failures(
            name,
            row,
            source,
        ),
    }
}

pub open spec fn no_reason(reason: Option<String>) -> bool {
    match reason {
        Some(r) => r@.len() == 0,
        None => true,
    }
}

/// What is wrong with a row by its status.
pub open spec fn status_failures(
    name: Seq<char>,
    row: SteadyStateRow,
    source: Seq<char>,
    cfg: SteadyStateGateConfig,
) -> Seq<Seq<char>> {
    if row.status@ == "completed"@ {
        if name == "idle"@ {
            idle_failures(name, row, source)
        } else {
            completed_failures(name, row, source)
        }
    } else if row.status@ == "unsupported"@ {
        if is_optional(name, cfg) {
            figure::note(
                no_reason(row.unsupported_reason),
                artifact::says(source, name, " is unsupported without a reason"@),
            )
        } else {
            seq![
                artifact::says(source, name, " is unsupported: "@) + reason_or(
                    row.unsupported_reason,
                ),
            ]
        }
    } else if row.status@ == "failed"@ {
        seq![artifact::says(source, name, " failed: "@) + reason_or(row.failure_reason)]
    } else {
        seq![
            artifact::says(source, name, " has unknown status "@) + figure::quoted_text(
                row.status@,
            ),
        ]
    }
}

/// Whether a database has a name that is not blank.
pub open spec fn has_database(row: SteadyStateRow) -> bool {
    row.database.text() matches Some(name) && text::trim(name).len() > 0
}

/// Everything that is wrong with a row of an artifact.
pub open spec fn row_failures(
    name: Seq<char>,
    row: SteadyStateRow,
    source: Seq<char>,
    cfg: SteadyStateGateConfig,
) -> Seq<Seq<char>> {
    figure::note(
        row.suite@ != "steady-state"@,
        artifact::says(source, name, " has invalid suite "@) + figure::quoted_text(row.suite@),
    ) + figure::note(
        !has_database(row),
        artifact::says(source, name, " has invalid database field"@),
    ) + artifact::task_failures(name, row.task, source) + artifact::phases_failures(
        name,
        row,
        source,
    ) + status_failures(name, row, source, cfg)
}

fn check_errors(
    row_name: &str,
    validation: &SteadyStateValidation,
    source: &str,
    failures: &mut Vec<String>,
)
    ensures
        text::texts(final(failures)@) == text::texts(old(failures)@) + error_failures(
            row_name@,
            *validation,
            source@,
        ),
{
    add_note(
        failures,
        validation.errors > 0,
        cat3(
            said(source, row_name, " has ").as_str(),
            decimal_text(validation.errors as u128).as_str(),
            " validation errors",
        ),
    );
}

fn push_finding(failures: &mut Vec<String>, finding: String)
    ensures
        text::texts(final(failures)@) == text::texts(old(failures)@) + seq![finding@],
{
    add_note(failures, true, finding);
}

fn validate_idle(row_name: &str, row: &SteadyStateRow, source: &str, failures: &mut Vec<String>)
    ensures
        text::texts(final(failures)@) == text::texts(old(failures)@) + idle_failures(
            row_name@,
            *row,
            source@,
        ),
{
    let validation: &SteadyStateValidation = match &row.validation {
        Some(v) => v,
        None => {
            push_finding(failures, said(source, row_name, " is missing validation"));
            return;
        },
    };
    check_errors(row_name, validation, source, failures);
    add_note(
        failures,
        validation.read_hits != 0 || validation.read_misses != 0 || validation.updates != 0
            || validation.scan_count_errors != 0,
        said(source, row_name, " reports client operations"),
    );
    add_note(
        failures,
        !same_text(validation.observed_mix.as_str(), "none") || !same_text(
            validation.expected_mix_prefix.as_str(),
            "none",
        ),
        said(source, row_name, " has invalid idle operation mix"),
    );
    add_note(
        failures,
        row.throughput.is_some() || row.latency.is_some(),
        said(source, row_name, " must not report throughput or latency"),
    );
    match &row.drain {
        None => push_finding(failures, said(source, row_name, " is missing drain")),
        Some(drain) => add_note(
            failures,
            drain.elapsed_ms.invalid_quantity() || drain.timed_out,
            said(source, row_name, " has invalid drain"),
        ),
    }
    assert(text::texts(failures@) =~= text::texts(old(failures)@) + idle_failures(
        row_name@,
        *row,
        source@,
    ));
}

fn has_invalid_window(windows: &Vec<Float64>) -> (r: bool)
    ensures
        r == exists|i: int|
            0 <= i < windows@.len() && (#[trigger] windows@[i]).invalid_quantity_spec(),
{
    let mut i: usize = 0;
    while i < windows.len()
        invariant
            i <= windows@.len(),
            forall|k: int| 0 <= k < i ==> !(#[trigger] windows@[k]).invalid_quantity_spec(),
        decreases windows@.len() - i,
    {
        if windows[i].invalid_quantity() {
            return true;
        }
        i = i + 1;
    }
    false
}

fn validate_throughput(
    row_name: &str,
    throughput: &SteadyStateThroughput,
    source: &str,
    failures: &mut Vec<String>,
)
    ensures
        text::texts(final(failures)@) == text::texts(old(failures)@) + throughput_failures(
            row_name@,
            *throughput,
            source@,
        ),
{
    let ops: Float64 = throughput.ops_per_sec.value;
    add_note(
        failures,
        throughput.completed_operations == 0,
        said(source, row_name, " completed zero operations"),
    );
    add_note(
        failures,
        ops.le(Float64::zero()) || !ops.is_finite(),
        said(source, row_name, " has invalid OPS"),
    );
    add_note(
        failures,
        throughput.per_second_windows.len() == 0,
        said(source, row_name, " is missing throughput windows"),
    );
    add_note(
        failures,
        has_invalid_window(&throughput.per_second_windows),
        said(source, row_name, " has invalid throughput windows"),
    );
    assert(text::texts(failures@) =~= text::texts(old(failures)@) + throughput_failures(
        row_name@,
        *throughput,
        source@,
    ));
}

fn validate_latency(
    row_name: &str,
    latency: &SteadyStateLatency,
    every: u64,
    source: &str,
    failures: &mut Vec<String>,
)
    ensures
        text::texts(final(failures)@) == text::texts(old(failures)@) + latency_row_failures(
            row_name@,
            *latency,
            every,
            source@,
        ),
{
    let p95: Float64 = latency.p95_ms.value;
    let p99: Float64 = latency.p99_ms.value;
    add_note(
        failures,
        every > 0 && latency.sample_count == 0,
        said(source, row_name, " is missing latency samples"),
    );
    add_note(
        failures,
        latency.p50_ms.invalid_quantity() || p95.invalid_quantity() || p99.invalid_quantity(),
        said(source, row_name, " has invalid latency"),
    );
    add_note(
        failures,
        p95.lt(latency.p50_ms) || p99.lt(p95),
        said(source, row_name, " has unordered latency quantiles"),
    );
    assert(text::texts(failures@) =~= text::texts(old(failures)@) + latency_row_failures(
        row_name@,
        *latency,
        every,
        source@,
    ));
}

fn validate_drain(
    row_name: &str,
    drain: &Option<SteadyStateDrain>,
    source: &str,
    failures: &mut Vec<String>,
)
    ensures
        text::texts(final(failures)@) == text::texts(old(failures)@) + drain_failures(
            row_name@,
            *drain,
            source@,
        ),
{
    match drain {
        None => push_finding(failures, said(source, row_name, " is missing drain")),
        Some(d) => {
            add_note(
                failures,
                d.elapsed_ms.invalid_quantity(),
                said(source, row_name, " has invalid drain elapsed time"),
            );
            add_note(failures, d.timed_out, said(source, row_name, " drain timed out"));
        },
    }
    assert(text::texts(failures@) =~= text::texts(old(failures)@) + drain_failures(
        row_name@,
        *drain,
        source@,
    ));
}

proof fn lemma_lists2<A>(s: Seq<A>, a: Seq<A>, b: Seq<A>)
    ensures
        s + a + b == s + (a + b),
{
    assert(s + a + b =~= s + (a + b));
}

fn validate_completed(
    row_name: &str,
    row: &SteadyStateRow,
    source: &str,
    failures: &mut Vec<String>,
)
    ensures
        text::texts(final(failures)@) == text::texts(old(failures)@) + completed_failures(
            row_name@,
            *row,
            source@,
        ),
{
    let ghost start = text::texts(failures@);
    let throughput: &SteadyStateThroughput = match &row.throughput {
        Some(t) => t,
        None => {
            push_finding(failures, said(source, row_name, " is missing throughput"));
            return;
        },
    };
    validate_throughput(row_name, throughput, source, failures);
    let ghost a = throughput_failures(row_name@, *throughput, source@);
    proof {
        lemma_lists2(start, a, validation_on_failures(row_name@, *row, source@));
    }
    let validation: &SteadyStateValidation = match &row.validation {
        Some(v) => v,
        None => {
            push_finding(failures, said(source, row_name, " is missing validation"));
            return;
        },
    };
    check_errors(row_name, validation, source, failures);
    add_note(
        failures,
        blank(&validation.observed_mix) || blank(&validation.expected_mix_prefix),
        said(source, row_name, " is missing validation mix details"),
    );
    let ghost b = error_failures(row_name@, *validation, source@);
    let ghost c = mix_failures(row_name@, *validation, source@);
    proof {
        lemma_lists2(start + a, b, c);
        lemma_lists2(start + a, b + c, latency_on_failures(row_name@, *row, source@));
    }
    let latency: &SteadyStateLatency = match &row.latency {
        Some(l) => l,
        None => {
            push_finding(failures, said(source, row_name, " is missing latency"));
            return;
        },
    };
    validate_latency(row_name, latency, row.task.latency_sample_every, source, failures);
    let ghost d = latency_row_failures(
        row_name@,
        *latency,
        row.task.latency_sample_every,
        source@,
    );
    proof {
        lemma_lists2(start + a + (b + c), d, drain_failures(row_name@, row.drain, source@));
    }
    validate_drain(row_name, &row.drain, source, failures);
}

/// Finds everything that is wrong with a row of an artifact.
pub fn validate_steady_state_row(
    row_name: &str,
    row: &SteadyStateRow,
    source: &str,
    cfg: &SteadyStateGateConfig,
    failures: &mut Vec<String>,
)
    ensures
        text::texts(final(failures)@) == text::texts(old(failures)@) + row_failures(
            row_name@,
            *row,
            source@,
            *cfg,
        ),
{
    let ghost start = text::texts(failures@);
    let suite: &str = row.suite.as_str();
    add_note(
        failures,
        !same_text(suite, "steady-state"),
        cat2(said(source, row_name, " has invalid suite ").as_str(), quoted(suite).as_str()),
    );
    let named: bool = match row.database.as_text() {
        Some(name) => trimmed(name).unicode_len() > 0,
        None => false,
    };
    add_note(failures, !named, said(source, row_name, " has invalid database field"));
    validate_steady_state_task(row_name, &row.task, source, failures);
    validate_steady_state_phases(row_name, row, source, failures);
    let ghost before = text::texts(failures@);
    let status: &str = row.status.as_str();
    if same_text(status, "completed") {
        if same_text(row_name, "idle") {
            validate_idle(row_name, row, source, failures);
        } else {
            validate_completed(row_name, row, source, failures);
        }
    } else if same_text(status, "unsupported") {
        if holds_text(&cfg.optional_rows, row_name) {
            let unexplained: bool = match &row.unsupported_reason {
                Some(reason) => blank(reason),
                None => true,
            };
            add_note(
                failures,
                unexplained,
                said(source, row_name, " is unsupported without a reason"),
            );
        } else {
            push_finding(
                failures,
                cat2(
                    said(source, row_name, " is unsupported: ").as_str(),
                    reason_text(&row.unsupported_reason),
                ),
            );
        }
    } else if same_text(status, "failed") {
        push_finding(
            failures,
            cat2(
                said(source, row_name, " failed: ").as_str(),
                reason_text(&row.failure_reason),
            ),
        );
    } else {
        push_finding(
            failures,
            cat2(
                said(source, row_name, " has unknown status ").as_str(),
                quoted(status).as_str(),
            ),
        );
    }
    proof {
        let a = figure::note(
            row.suite@ != "steady-state"@,
            artifact::says(source@, row_name@, " has invalid suite "@) + figure::quoted_text(
                row.suite@,
            ),
        );
        let b = figure::note(
            !has_database(*row),
            artifact::says(source@, row_name@, " has invalid database field"@),
        );
        let c = artifact::task_failures(row_name@, row.task, source@);
        let d = artifact::phases_failures(row_name@, *row, source@);
        let e = status_failures(row_name@, *row, source@, *cfg);
        assert(before == start + a + b + c + d);
        assert(text::texts(failures@) == before + e);
        lemma_lists5(start, a, b, c, d, e);
    }
}

proof fn lemma_lists5<A>(s: Seq<A>, a: Seq<A>, b: Seq<A>, c: Seq<A>, d: Seq<A>, e: Seq<A>)
    ensures
        s + a + b + c + d + e == s + (a + b + c + d + e),
{
    assert(s + a + b + c + d + e =~= s + (a + b + c + d + e));
}

/// Whether two rows were asked to do the same.
pub open spec fn same_task(a: SteadyStateTask, b: SteadyStateTask) -> bool {
    &&& a.records == b.records
    &&& a.clients == b.clients
    &&& a.threads == b.threads
    &&& a.warmup_secs == b.warmup_secs
    &&& a.measurement_secs == b.measurement_secs
    &&& a.latency_sample_every == b.latency_sample_every
    &&& a.seed == b.seed
    &&& a.worker_seed_derivation@ == b.worker_seed_derivation@
    &&& a.operation_mix@ == b.operation_mix@
    &&& a.operation_mix_period == b.operation_mix_period
    &&& a.key_selection@ == b.key_selection@
    &&& a.zipfian_exponent.equals(b.zipfian_exponent)
}

fn tasks_equal(a: &SteadyStateTask, b: &SteadyStateTask) -> (r: bool)
    ensures
        r == same_task(*a, *b),
{
    a.records == b.records && a.clients == b.clients && a.threads == b.threads && a.warmup_secs
        == b.warmup_secs && a.measurement_secs == b.measurement_secs && a.latency_sample_every
        == b.latency_sample_every && a.seed == b.seed && same_text(
        a.worker_seed_derivation.as_str(),
        b.worker_seed_derivation.as_str(),
    ) && same_text(a.operation_mix.as_str(), b.operation_mix.as_str()) && a.operation_mix_period
        == b.operation_mix_period && same_text(a.key_selection.as_str(), b.key_selection.as_str())
        && a.zipfian_exponent.same(b.zipfian_exponent)
}

/// Why two rows cannot be compared.
pub open spec fn comparison_failures(
    name: Seq<char>,
    baseline: SteadyStateRow,
    current: SteadyStateRow,
    allow_database_mismatch: bool,
) -> Seq<Seq<char>> {
    figure::note(
        !allow_database_mismatch && !baseline.database.equals(current.database),
        name + " database differs between baseline and current"@,
    ) + figure::note(
        baseline.sync != current.sync,
        name + " sync setting differs between baseline and current"@,
    ) + figure::note(
        !same_task(baseline.task, current.task),
        name + " task metadata differs between baseline and current"@,
    )
}

/// Finds why two rows cannot be compared.
pub fn validate_steady_state_comparable(
    row_name: &str,
    baseline: &SteadyStateRow,
    current: &SteadyStateRow,
    allow_database_mismatch: bool,
    failures: &mut Vec<String>,
)
    ensures
        text::texts(final(failures)@) == text::texts(old(failures)@) + comparison_failures(
            row_name@,
            *baseline,
            *current,
            allow_database_mismatch,
        ),
{
    add_note(
        failures,
        !allow_database_mismatch && !baseline.database.same(&current.database),
        cat2(row_name, " database differs between baseline and current"),
    );
    add_note(
        failures,
        baseline.sync != current.sync,
        cat2(row_name, " sync setting differs between baseline and current"),
    );
    add_note(
        failures,
        !tasks_equal(&baseline.task, &current.task),
        cat2(row_name, " task metadata differs between baseline and current"),
    );
    assert(text::texts(failures@) =~= text::texts(old(failures)@) + comparison_failures(
        row_name@,
        *baseline,
        *current,
        allow_database_mismatch,
    ));
}

/// Whether the row of two artifacts can be compared by its figures.
pub open spec fn measured(row: SteadyStateRow) -> bool {
    row.throughput is Some && row.latency is Some
}

pub open spec fn skippable(name: Seq<char>, row: SteadyStateRow, cfg: SteadyStateGateConfig) -> bool {
    row.status@ == "unsupported"@ && is_optional(name, cfg)
}

pub open spec fn both_completed(b: SteadyStateRow, c: SteadyStateRow) -> bool {
    b.status@ == "completed"@ && c.status@ == "completed"@
}

/// One figure of a row in two artifacts.
pub open spec fn figure_text(
    b_label: Seq<char>,
    c_label: Seq<char>,
    what: Seq<char>,
    b: Figure,
    c: Figure,
) -> Seq<char> {
    b_label + what + b.fixed@ + " -> "@ + c_label + what + c.fixed@
}

pub open spec fn comparison_line(
    name: Seq<char>,
    b: SteadyStateRow,
    c: SteadyStateRow,
    q: RowChanges,
) -> Seq<char> {
    let bl = label_of(b.database);
    let cl = label_of(c.database);
    let b_ops = b.throughput->0.ops_per_sec;
    let c_ops = c.throughput->0.ops_per_sec;
    let b_lat = b.latency->0;
    let c_lat = c.latency->0;
    "- "@ + name + ": "@ + figure_text(bl, cl, " OPS "@, b_ops, c_ops) + " ("@
        + figure::change_signed(c_ops.value, b_ops.value, q.ops) + "%), "@ + figure_text(
        bl,
        cl,
        " p95 "@,
        b_lat.p95_ms,
        c_lat.p95_ms,
    ) + " ms ("@ + figure::change_signed(c_lat.p95_ms.value, b_lat.p95_ms.value, q.p95) + "%), "@
        + figure_text(bl, cl, " p99 "@, b_lat.p99_ms, c_lat.p99_ms) + " ms ("@
        + figure::change_signed(c_lat.p99_ms.value, b_lat.p99_ms.value, q.p99) + "%)\n"@
}

pub open spec fn regression(
    name: Seq<char>,
    what: Seq<char>,
    current: Figure,
    baseline: Figure,
    q: Change,
    bound: Seq<char>,
    limit: Figure,
) -> Seq<char> {
    name + what + figure::change_fixed(current.value, baseline.value, q) + bound + limit.fixed@
        + "%"@
}

/// The regressions of a row beyond what the perf gate allows.
pub open spec fn regressions(
    name: Seq<char>,
    b: SteadyStateRow,
    c: SteadyStateRow,
    q: RowChanges,
    cfg: SteadyStateGateConfig,
) -> Seq<Seq<char>> {
    let b_ops = b.throughput->0.ops_per_sec;
    let c_ops = c.throughput->0.ops_per_sec;
    let b_lat = b.latency->0;
    let c_lat = c.latency->0;
    let limit = cfg.max_latency_regression_pct;
    figure::note(
        figure::percent_change_spec(c_ops.value, b_ops.value, q.ops.value).less(
            cfg.max_ops_regression_pct.value.negated(),
        ),
        regression(
            name,
            " OPS regressed "@,
            c_ops,
            b_ops,
            q.ops,
            "%, below -"@,
            cfg.max_ops_regression_pct,
        ),
    ) + figure::note(
        limit.value.less(
            figure::percent_change_spec(c_lat.p95_ms.value, b_lat.p95_ms.value, q.p95.value),
        ),
        regression(
            name,
            " p95 regressed "@,
            c_lat.p95_ms,
            b_lat.p95_ms,
            q.p95,
            "%, above "@,
            limit,
        ),
    ) + figure::note(
        limit.value.less(
            figure::percent_change_spec(c_lat.p99_ms.value, b_lat.p99_ms.value, q.p99.value),
        ),
        regression(
            name,
            " p99 regressed "@,
            c_lat.p99_ms,
            b_lat.p99_ms,
            q.p99,
            "%, above "@,
            limit,
        ),
    )
}

/// The line of a row in the report.
pub open spec fn row_line(
    name: Seq<char>,
    b: SteadyStateRow,
    c: SteadyStateRow,
    q: RowChanges,
    cfg: SteadyStateGateConfig,
) -> Seq<char> {
    if name == "idle"@ {
        "- idle: no client operations; phase timings only\n"@
    } else if both_completed(b, c) {
        if measured(b) && measured(c) {
            comparison_line(name, b, c, q)
        } else {
            Seq::empty()
        }
    } else if skippable(name, b, cfg) && skippable(name, c, cfg) {
        "- "@ + name + ": optional unsupported; skipped\n"@
    } else {
        "- "@ + name + ": baseline status="@ + b.status@ + ", current status="@ + c.status@ + "\n"@
    }
}

/// What the comparison of a row finds.
pub open spec fn compared_failures(
    name: Seq<char>,
    b: SteadyStateRow,
    c: SteadyStateRow,
    q: RowChanges,
    cfg: SteadyStateGateConfig,
) -> Seq<Seq<char>> {
    if name == "idle"@ {
        Seq::empty()
    } else if both_completed(b, c) {
        if measured(b) && measured(c) {
            regressions(name, b, c, q, cfg)
        } else {
            Seq::empty()
        }
    } else {
        figure::note(
            skippable(name, b, cfg) != skippable(name, c, cfg),
            name + " optional unsupported state differs: baseline="@ + b.status@ + ", current="@
                + c.status@,
        )
    }
}

/// Everything that a row fails.
pub open spec fn gate_row_failures(
    name: Seq<char>,
    b: SteadyStateRow,
    c: SteadyStateRow,
    q: RowChanges,
    cfg: SteadyStateGateConfig,
) -> Seq<Seq<char>> {
    row_failures(name, b, "baseline"@, cfg) + row_failures(name, c, "current"@, cfg)
        + comparison_failures(name, b, c, cfg.allow_database_mismatch) + compared_failures(
        name,
        b,
        c,
        q,
        cfg,
    )
}

fn append_figure(
    line: &mut String,
    b_label: &str,
    c_label: &str,
    what: &str,
    b: &Figure,
    c: &Figure,
    unit: &str,
    q: &Change,
    end: &str,
)
    ensures
        final(line)@ == old(line)@ + figure_text(b_label@, c_label@, what@, *b, *c) + unit@
            + figure::change_signed(c.value, b.value, *q) + end@,
{
    let head: String = cat4(b_label, what, b.fixed.as_str(), " -> ");
    let pair: String = cat4(head.as_str(), c_label, what, c.fixed.as_str());
    let delta: Change = change(c.value, b.value, q);
    line.append(pair.as_str());
    line.append(unit);
    line.append(delta.signed.as_str());
    line.append(end);
}

fn check_regressions(
    row_name: &str,
    b_ops: &Figure,
    c_ops: &Figure,
    b_lat: &SteadyStateLatency,
    c_lat: &SteadyStateLatency,
    q: &RowChanges,
    cfg: &SteadyStateGateConfig,
    failures: &mut Vec<String>,
    b: &SteadyStateRow,
    c: &SteadyStateRow,
)
    requires
        b.throughput matches Some(t) && t.ops_per_sec == *b_ops,
        c.throughput matches Some(t) && t.ops_per_sec == *c_ops,
        b.latency == Some(*b_lat),
        c.latency == Some(*c_lat),
    ensures
        text::texts(final(failures)@) == text::texts(old(failures)@) + regressions(
            row_name@,
            *b,
            *c,
            *q,
            *cfg,
        ),
{
    let ops: Change = change(c_ops.value, b_ops.value, &q.ops);
    let p95: Change = change(c_lat.p95_ms.value, b_lat.p95_ms.value, &q.p95);
    let p99: Change = change(c_lat.p99_ms.value, b_lat.p99_ms.value, &q.p99);
    let limit: &Figure = &cfg.max_latency_regression_pct;
    add_note(
        failures,
        ops.value.lt(cfg.max_ops_regression_pct.value.neg()),
        cat5(
            row_name,
            " OPS regressed ",
            ops.fixed.as_str(),
            "%, below -",
            cfg.max_ops_regression_pct.fixed.as_str(),
        ).concat("%"),
    );
    add_note(
        failures,
        limit.value.lt(p95.value),
        cat5(
            row_name,
            " p95 regressed ",
            p95.fixed.as_str(),
            "%, above ",
            limit.fixed.as_str(),
        ).concat("%"),
    );
    add_note(
        failures,
        limit.value.lt(p99.value),
        cat5(
            row_name,
            " p99 regressed ",
            p99.fixed.as_str(),
            "%, above ",
            limit.fixed.as_str(),
        ).concat("%"),
    );
    assert(text::texts(failures@) =~= text::texts(old(failures)@) + regressions(
        row_name@,
        *b,
        *c,
        *q,
        *cfg,
    ));
}

fn compare_row(
    row_name: &str,
    b: &SteadyStateRow,
    c: &SteadyStateRow,
    q: &RowChanges,
    cfg: &SteadyStateGateConfig,
    failures: &mut Vec<String>,
) -> (line: String)
    ensures
        line@ == row_line(row_name@, *b, *c, *q, *cfg),
        text::texts(final(failures)@) == text::texts(old(failures)@) + compared_failures(
            row_name@,
            *b,
            *c,
            *q,
            *cfg,
        ),
{
    let ghost start = text::texts(failures@);
    assert(start + Seq::<Seq<char>>::empty() =~= start);
    if same_text(row_name, "idle") {
        return "- idle: no client operations; phase timings only\n".to_owned();
    }
    let b_status: &str = b.status.as_str();
    let c_status: &str = c.status.as_str();
    if same_text(b_status, "completed") && same_text(c_status, "completed") {
        let (b_ops, c_ops, b_lat, c_lat): (
            &Figure,
            &Figure,
            &SteadyStateLatency,
            &SteadyStateLatency,
        ) = match (&b.throughput, &c.throughput, &b.latency, &c.latency) {
            (Some(bt), Some(ct), Some(bl), Some(cl)) => (
                &bt.ops_per_sec,
                &ct.ops_per_sec,
                bl,
                cl,
            ),
            _ => {
                let empty: String = String::new();
                assert(empty@ =~= Seq::empty());
                return empty;
            },
        };
        let bl: &str = database_label(&b.database);
        let cl: &str = database_label(&c.database);
        let mut line: String = cat3("- ", row_name, ": ");
        append_figure(&mut line, bl, cl, " OPS ", b_ops, c_ops, " (", &q.ops, "%), ");
        append_figure(
            &mut line,
            bl,
            cl,
            " p95 ",
            &b_lat.p95_ms,
            &c_lat.p95_ms,
            " ms (",
            &q.p95,
            "%), ",
        );
        append_figure(
            &mut line,
            bl,
            cl,
            " p99 ",
            &b_lat.p99_ms,
            &c_lat.p99_ms,
            " ms (",
            &q.p99,
            "%)\n",
        );
        check_regressions(row_name, b_ops, c_ops, b_lat, c_lat, q, cfg, failures, b, c);
        return line;
    }
    let b_skip: bool = is_optional_unsupported(row_name, b_status, cfg);
    let c_skip: bool = is_optional_unsupported(row_name, c_status, cfg);
    if b_skip && c_skip {
        return cat3("- ", row_name, ": optional unsupported; skipped\n");
    }
    add_note(
        failures,
        b_skip != c_skip,
        cat5(
            row_name,
            " optional unsupported state differs: baseline=",
            b_status,
            ", current=",
            c_status,
        ),
    );
    let head: String = cat5("- ", row_name, ": baseline status=", b_status, ", current status=");
    cat3(head.as_str(), c_status, "\n")
}

/// The row of an artifact that a name stands for.
pub open spec fn row_of(all: SteadyStateRows, name: Seq<char>) -> SteadyStateRow {
    all.rows@[artifact::named(all.rows@, name, all.rows@.len())->0]
}

pub open spec fn absent(all: SteadyStateRows, name: Seq<char>, source: Seq<char>) -> Option<
    Seq<char>,
> {
    if artifact::named(all.rows@, name, all.rows@.len()) is Some {
        None
    } else {
        Some(artifact::missing_steady_state_row(name, source))
    }
}

/// The error of the first of the first `n` rows that an artifact lacks.
pub open spec fn rows_error(i: SteadyStateGateInputs, rows: Seq<Seq<char>>, n: nat) -> Option<
    Seq<char>,
>
    decreases n,
{
    if n == 0 {
        None
    } else {
        match rows_error(i, rows, (n - 1) as nat) {
            Some(e) => Some(e),
            None => match absent(i.baseline, rows[n - 1], "baseline"@) {
                Some(e) => Some(e),
                None => absent(i.current, rows[n - 1], "current"@),
            },
        }
    }
}

proof fn lemma_rows_error(i: SteadyStateGateInputs, rows: Seq<Seq<char>>, k: nat, n: nat)
    requires
        k <= n,
        rows_error(i, rows, k) is Some,
    ensures
        rows_error(i, rows, n) == rows_error(i, rows, k),
    decreases n,
{
    if k < n {
        lemma_rows_error(i, rows, k, (n - 1) as nat);
    }
}

/// The lines of the first `n` rows.
pub open spec fn report_lines(
    cfg: SteadyStateGateConfig,
    i: SteadyStateGateInputs,
    changes: Seq<RowChanges>,
    n: nat,
) -> Seq<Seq<char>>
    decreases n,
{
    if n == 0 {
        Seq::empty()
    } else {
        let name = cfg.rows@[n - 1]@;
        report_lines(cfg, i, changes, (n - 1) as nat).push(
            row_line(name, row_of(i.baseline, name), row_of(i.current, name), changes[n - 1], cfg),
        )
    }
}

/// The failures of the first `n` rows.
pub open spec fn report_failures(
    cfg: SteadyStateGateConfig,
    i: SteadyStateGateInputs,
    changes: Seq<RowChanges>,
    n: nat,
) -> Seq<Seq<char>>
    decreases n,
{
    if n == 0 {
        Seq::empty()
    } else {
        let name = cfg.rows@[n - 1]@;
        report_failures(cfg, i, changes, (n - 1) as nat) + gate_row_failures(
            name,
            row_of(i.baseline, name),
            row_of(i.current, name),
            changes[n - 1],
            cfg,
        )
    }
}

pub open spec fn steady_gate_error(cfg: SteadyStateGateConfig, i: SteadyStateGateInputs) -> Option<
    Seq<char>,
> {
    match gate_config_error(cfg) {
        Some(e) => Some(e),
        None => rows_error(i, text::texts(cfg.rows@), cfg.rows@.len()),
    }
}

fn judge_row(
    row_name: &str,
    b: &SteadyStateRow,
    c: &SteadyStateRow,
    q: &RowChanges,
    cfg: &SteadyStateGateConfig,
    failures: &mut Vec<String>,
) -> (line: String)
    ensures
        line@ == row_line(row_name@, *b, *c, *q, *cfg),
        text::texts(final(failures)@) == text::texts(old(failures)@) + gate_row_failures(
            row_name@,
            *b,
            *c,
            *q,
            *cfg,
        ),
{
    validate_steady_state_row(row_name, b, "baseline", cfg, failures);
    validate_steady_state_row(row_name, c, "current", cfg, failures);
    validate_steady_state_comparable(row_name, b, c, cfg.allow_database_mismatch, failures);
    let line: String = compare_row(row_name, b, c, q, cfg, failures);
    proof {
        let start = text::texts(old(failures)@);
        let p = row_failures(row_name@, *b, "baseline"@, *cfg);
        let r = row_failures(row_name@, *c, "current"@, *cfg);
        let s = comparison_failures(row_name@, *b, *c, cfg.allow_database_mismatch);
        let t = compared_failures(row_name@, *b, *c, *q, *cfg);
        lemma_lists4(start, p, r, s, t);
    }
    line
}

proof fn lemma_lists4<A>(s: Seq<A>, a: Seq<A>, b: Seq<A>, c: Seq<A>, d: Seq<A>)
    ensures
        s + a + b + c + d == s + (a + b + c + d),
{
    assert(s + a + b + c + d =~= s + (a + b + c + d));
}

/// Judges two artifacts: every row must be valid in both, be the same task, and not have become
/// slower than allowed. `changes` holds the changes of the rows, in their order.
#[verifier::spinoff_prover]
#[verifier::rlimit(60)]
pub fn evaluate_steady_state(
    cfg: &SteadyStateGateConfig,
    inputs: &SteadyStateGateInputs,
    changes: &Vec<RowChanges>,
) -> (r: Result<Evaluation, Failure>)
    requires
        changes@.len() == cfg.rows@.len(),
    ensures
        match (r, steady_gate_error(*cfg, *inputs)) {
            (Ok(e), None) => {
                let failures = report_failures(*cfg, *inputs, changes@, cfg.rows@.len());
                &&& e.report@ == "ToyKV steady-state perf gate\n\n"@ + "Steady-state row gate:\n"@
                    + figure::flat(report_lines(*cfg, *inputs, changes@, cfg.rows@.len()))
                    + figure::conclusion(failures)
                &&& e.passed == (failures.len() == 0)
            },
            (Err(e), Some(t)) => e@ == t,
            _ => false,
        },
{
    if let Err(e) = validate_steady_state_config(cfg) {
        return Err(e);
    }
    let ghost rows = text::texts(cfg.rows@);
    let mut failures: Vec<String> = Vec::new();
    let mut out: String = cat2("ToyKV steady-state perf gate\n\n", "Steady-state row gate:\n");
    let ghost out0 = out@;
    let mut i: usize = 0;
    assert(out0 + figure::flat(Seq::empty()) =~= out0);
    assert(text::texts(failures@) =~= Seq::<Seq<char>>::empty());
    #[verifier::loop_isolation(false)]
    while i < cfg.rows.len()
        invariant
            i <= cfg.rows@.len(),
            rows_error(*inputs, rows, i as nat) is None,
            out@ == out0 + figure::flat(report_lines(*cfg, *inputs, changes@, i as nat)),
            text::texts(failures@) == report_failures(*cfg, *inputs, changes@, i as nat),
        decreases cfg.rows@.len() - i,
    {
        let row_name: &str = cfg.rows[i].as_str();
        assert(rows[i as int] == row_name@);
        proof {
            if rows_error(*inputs, rows, (i + 1) as nat) is Some {
                lemma_rows_error(*inputs, rows, (i + 1) as nat, rows.len());
            }
        }
        let baseline: &SteadyStateRow = match required_steady_state_row(
            &inputs.baseline,
            row_name,
            "baseline",
        ) {
            Ok(row) => row,
            Err(e) => {
                return Err(e);
            },
        };
        let current: &SteadyStateRow = match required_steady_state_row(
            &inputs.current,
            row_name,
            "current",
        ) {
            Ok(row) => row,
            Err(e) => {
                return Err(e);
            },
        };
        let line: String = judge_row(
            row_name,
            baseline,
            current,
            &changes[i],
            cfg,
            &mut failures,
        );
        let ghost lines = report_lines(*cfg, *inputs, changes@, i as nat);
        proof {
            assert(lines.push(line@).drop_last() =~= lines);
            assert(out0 + figure::flat(lines) + line@ =~= out0 + (figure::flat(lines) + line@));
        }
        out.append(line.as_str());
        i = i + 1;
    }
    assert(failures@.len() == text::texts(failures@).len());
    Ok(conclude(out, &failures))
}

/// Whether a row may pass the perf gate: it is completed without errors, with operations, with latency
/// samples where they were asked for and with a drain that did not time out; or it is unsupported
/// with a reason, and optional.
pub open spec fn acceptable(name: Seq<char>, row: SteadyStateRow, cfg: SteadyStateGateConfig) -> bool {
    ||| {
        &&& row.status@ == "completed"@
        &&& row.validation matches Some(v) && v.errors == 0
        &&& row.drain matches Some(d) && !d.timed_out
        &&& name != "idle"@ ==> {
            &&& row.throughput matches Some(t) && t.completed_operations > 0
            &&& row.latency matches Some(l) && (row.task.latency_sample_every > 0
                ==> l.sample_count > 0)
        }
    }
    ||| row.status@ == "unsupported"@ && is_optional(name, cfg) && !no_reason(
        row.unsupported_reason,
    )
}

/// A row in which nothing is wrong may pass the perf gate: one with validation errors, without a
/// completed operation, without the latency samples that were asked for, with a drain that timed
/// out, failed, or unsupported without being optional never does.
pub proof fn lemma_valid_row_acceptable(
    name: Seq<char>,
    row: SteadyStateRow,
    source: Seq<char>,
    cfg: SteadyStateGateConfig,
)
    requires
        row_failures(name, row, source, cfg).len() == 0,
    ensures
        acceptable(name, row, cfg),
{
    assert(status_failures(name, row, source, cfg).len() == 0);
    if row.status@ == "completed"@ {
        if name == "idle"@ {
            let v = row.validation->0;
            assert(idle_failures(name, row, source).len() == 0);
        } else {
            assert(completed_failures(name, row, source).len() == 0);
            assert(validation_on_failures(name, row, source).len() == 0);
            assert(latency_on_failures(name, row, source).len() == 0);
            assert(drain_failures(name, row.drain, source).len() == 0);
        }
    }
}

proof fn lemma_no_failures(
    cfg: SteadyStateGateConfig,
    i: SteadyStateGateInputs,
    changes: Seq<RowChanges>,
    n: nat,
    k: int,
)
    requires
        0 <= k < n <= cfg.rows@.len(),
        report_failures(cfg, i, changes, n).len() == 0,
    ensures
        gate_row_failures(
            cfg.rows@[k]@,
            row_of(i.baseline, cfg.rows@[k]@),
            row_of(i.current, cfg.rows@[k]@),
            changes[k],
            cfg,
        ).len() == 0,
    decreases n,
{
    if k < n - 1 {
        lemma_no_failures(cfg, i, changes, (n - 1) as nat, k);
    }
}

/// Where the perf gate passes, every row may pass in both artifacts, describes the same task with the
/// same sync setting and, unless that was waived, the same database; and no measured row became
/// slower than allowed.
#[verifier::spinoff_prover]
#[verifier::rlimit(60)]
pub proof fn lemma_passing_gate(
    cfg: SteadyStateGateConfig,
    i: SteadyStateGateInputs,
    changes: Seq<RowChanges>,
    k: int,
)
    requires
        0 <= k < cfg.rows@.len() == changes.len(),
        report_failures(cfg, i, changes, cfg.rows@.len()).len() == 0,
    ensures
        ({
            let name = cfg.rows@[k]@;
            let b = row_of(i.baseline, name);
            let c = row_of(i.current, name);
            let q = changes[k];
            &&& acceptable(name, b, cfg)
            &&& acceptable(name, c, cfg)
            &&& same_task(b.task, c.task)
            &&& b.sync == c.sync
            &&& cfg.allow_database_mismatch || b.database.equals(c.database)
            &&& name != "idle"@ && both_completed(b, c) ==> {
                let b_lat = b.latency->0;
                let c_lat = c.latency->0;
                &&& !figure::percent_change_spec(
                    c.throughput->0.ops_per_sec.value,
                    b.throughput->0.ops_per_sec.value,
                    q.ops.value,
                ).less(cfg.max_ops_regression_pct.value.negated())
                &&& !cfg.max_latency_regression_pct.value.less(
                    figure::percent_change_spec(
                        c_lat.p95_ms.value,
                        b_lat.p95_ms.value,
                        q.p95.value,
                    ),
                )
                &&& !cfg.max_latency_regression_pct.value.less(
                    figure::percent_change_spec(
                        c_lat.p99_ms.value,
                        b_lat.p99_ms.value,
                        q.p99.value,
                    ),
                )
            }
        }),
{
    let name = cfg.rows@[k]@;
    let b = row_of(i.baseline, name);
    let c = row_of(i.current, name);
    lemma_no_failures(cfg, i, changes, cfg.rows@.len(), k);
    assert(row_failures(name, b, "baseline"@, cfg).len() == 0);
    assert(row_failures(name, c, "current"@, cfg).len() == 0);
    lemma_valid_row_acceptable(name, b, "baseline"@, cfg);
    lemma_valid_row_acceptable(name, c, "current"@, cfg);
    assert(comparison_failures(name, b, c, cfg.allow_database_mismatch).len() == 0);
    assert(compared_failures(name, b, c, changes[k], cfg).len() == 0);
    if name != "idle"@ && both_completed(b, c) {
        assert("completed"@ != "unsupported"@) by {
            reveal_strlit("completed");
            reveal_strlit("unsupported");
            assert("completed"@.len() != "unsupported"@.len());
        }
        assert(regressions(name, b, c, changes[k], cfg).len() == 0);
    }
}

#[verifier::spinoff_prover]
proof fn lemma_any_source_throughput(
    name: Seq<char>,
    t: SteadyStateThroughput,
    a: Seq<char>,
    b: Seq<char>,
)
    ensures
        throughput_failures(name, t, a).len() == throughput_failures(name, t, b).len(),
{
}

#[verifier::spinoff_prover]
proof fn lemma_any_source_latency(name: Seq<char>, row: SteadyStateRow, a: Seq<char>, b: Seq<char>)
    ensures
        latency_on_failures(name, row, a).len() == latency_on_failures(name, row, b).len(),
{
    assert(drain_failures(name, row.drain, a).len() == drain_failures(name, row.drain, b).len());
}

#[verifier::spinoff_prover]
proof fn lemma_any_source_completed(
    name: Seq<char>,
    row: SteadyStateRow,
    a: Seq<char>,
    b: Seq<char>,
)
    ensures
        completed_failures(name, row, a).len() == completed_failures(name, row, b).len(),
{
    lemma_any_source_latency(name, row, a, b);
    assert(validation_on_failures(name, row, a).len() == validation_on_failures(
        name,
        row,
        b,
    ).len());
    if row.throughput is Some {
        lemma_any_source_throughput(name, row.throughput->0, a, b);
    }
}

#[verifier::spinoff_prover]
proof fn lemma_any_source_idle(name: Seq<char>, row: SteadyStateRow, a: Seq<char>, b: Seq<char>)
    ensures
        idle_failures(name, row, a).len() == idle_failures(name, row, b).len(),
{
}

/// Whether anything is wrong with a row does not depend on what the artifact is called.
#[verifier::spinoff_prover]
proof fn lemma_any_source(
    name: Seq<char>,
    row: SteadyStateRow,
    a: Seq<char>,
    b: Seq<char>,
    cfg: SteadyStateGateConfig,
)
    ensures
        row_failures(name, row, a, cfg).len() == row_failures(name, row, b, cfg).len(),
{
    assert(status_failures(name, row, a, cfg).len() == status_failures(name, row, b, cfg).len())
        by {
        if row.status@ == "completed"@ {
            if name == "idle"@ {
                lemma_any_source_idle(name, row, a, b);
            } else {
                lemma_any_source_completed(name, row, a, b);
            }
        }
    }
    artifact::lemma_any_source(name, row, a, b);
}

/// The figures of a valid completed row do not change from the row to itself.
#[verifier::spinoff_prover]
proof fn lemma_no_regression(
    name: Seq<char>,
    row: SteadyStateRow,
    source: Seq<char>,
    q: RowChanges,
    cfg: SteadyStateGateConfig,
)
    requires
        gate_config_error(cfg) is None,
        completed_failures(name, row, source).len() == 0,
    ensures
        regressions(name, row, row, q, cfg).len() == 0,
{
    assert(throughput_failures(name, row.throughput->0, source).len() == 0);
    let ops = row.throughput->0.ops_per_sec.value;
    assert(ops.is_finite_spec());
    assert(validation_on_failures(name, row, source).len() == 0);
    assert(latency_on_failures(name, row, source).len() == 0);
    let l = row.latency->0;
    assert(latency_row_failures(name, l, row.task.latency_sample_every, source).len() == 0);
    figure::lemma_no_change(ops, ops, q.ops.value, cfg.max_ops_regression_pct.value);
    let limit = cfg.max_latency_regression_pct.value;
    figure::lemma_no_change(l.p95_ms.value, l.p95_ms.value, q.p95.value, limit);
    figure::lemma_no_change(l.p99_ms.value, l.p99_ms.value, q.p99.value, limit);
}

/// A valid row can be compared with itself.
proof fn lemma_comparable_with_itself(
    name: Seq<char>,
    row: SteadyStateRow,
    source: Seq<char>,
    allow: bool,
)
    requires
        artifact::task_failures(name, row.task, source).len() == 0,
        has_database(row),
    ensures
        comparison_failures(name, row, row, allow).len() == 0,
{
    assert(!row.task.zipfian_exponent.invalid_quantity_spec());
    assert(same_task(row.task, row.task));
    assert(row.database.equals(row.database));
}

/// A valid row passes against itself, whatever the thresholds.
#[verifier::spinoff_prover]
proof fn lemma_row_passes_itself(
    name: Seq<char>,
    row: SteadyStateRow,
    q: RowChanges,
    cfg: SteadyStateGateConfig,
)
    requires
        gate_config_error(cfg) is None,
        row_failures(name, row, "baseline"@, cfg).len() == 0,
    ensures
        gate_row_failures(name, row, row, q, cfg).len() == 0,
{
    let source = "baseline"@;
    lemma_any_source(name, row, source, "current"@, cfg);
    assert(comparison_failures(name, row, row, cfg.allow_database_mismatch).len() == 0) by {
        assert(artifact::task_failures(name, row.task, source).len() == 0);
        lemma_comparable_with_itself(name, row, source, cfg.allow_database_mismatch);
    }
    assert(compared_failures(name, row, row, q, cfg).len() == 0) by {
        if name != "idle"@ && row.status@ == "completed"@ {
            assert(status_failures(name, row, source, cfg).len() == 0);
            lemma_no_regression(name, row, source, q, cfg);
        }
    }
}

/// One more valid row adds no error and no failure.
#[verifier::spinoff_prover]
proof fn lemma_next_row_passes(
    cfg: SteadyStateGateConfig,
    i: SteadyStateGateInputs,
    changes: Seq<RowChanges>,
    n: nat,
)
    requires
        i.baseline == i.current,
        gate_config_error(cfg) is None,
        n < cfg.rows@.len(),
        holds_valid(i.current, cfg.rows@[n as int]@, cfg),
        rows_error(i, text::texts(cfg.rows@), n) is None,
        report_failures(cfg, i, changes, n).len() == 0,
    ensures
        rows_error(i, text::texts(cfg.rows@), n + 1) is None,
        report_failures(cfg, i, changes, n + 1).len() == 0,
{
    let name = cfg.rows@[n as int]@;
    let row = row_of(i.current, name);
    assert(text::texts(cfg.rows@)[n as int] == name);
    assert(gate_row_failures(name, row, row, changes[n as int], cfg).len() == 0) by {
        lemma_row_passes_itself(name, row, changes[n as int], cfg);
    }
    assert(report_failures(cfg, i, changes, n + 1) == report_failures(cfg, i, changes, n)
        + gate_row_failures(name, row, row, changes[n as int], cfg));
}

#[verifier::spinoff_prover]
proof fn lemma_rows_pass_themselves(
    cfg: SteadyStateGateConfig,
    i: SteadyStateGateInputs,
    changes: Seq<RowChanges>,
    n: nat,
)
    requires
        i.baseline == i.current,
        gate_config_error(cfg) is None,
        n <= cfg.rows@.len(),
        forall|k: int|
            0 <= k < cfg.rows@.len() ==> holds_valid(i.current, #[trigger] cfg.rows@[k]@, cfg),
    ensures
        rows_error(i, text::texts(cfg.rows@), n) is None,
        report_failures(cfg, i, changes, n).len() == 0,
    decreases n,
{
    if n > 0 {
        let m = (n - 1) as nat;
        lemma_rows_pass_themselves(cfg, i, changes, m);
        assert(holds_valid(i.current, cfg.rows@[m as int]@, cfg));
        lemma_next_row_passes(cfg, i, changes, m);
    }
}

/// Whether an artifact has a row of the name, and nothing is wrong with it.
pub open spec fn holds_valid(
    all: SteadyStateRows,
    name: Seq<char>,
    cfg: SteadyStateGateConfig,
) -> bool {
    &&& artifact::named(all.rows@, name, all.rows@.len()) is Some
    &&& row_failures(name, row_of(all, name), "baseline"@, cfg).len() == 0
}

/// An artifact whose rows are valid passes the perf gate against itself, whatever the thresholds.
pub proof fn lemma_artifact_passes_itself(
    cfg: SteadyStateGateConfig,
    i: SteadyStateGateInputs,
    changes: Seq<RowChanges>,
)
    requires
        i.baseline == i.current,
        gate_config_error(cfg) is None,
        forall|k: int|
            0 <= k < cfg.rows@.len() ==> holds_valid(i.current, #[trigger] cfg.rows@[k]@, cfg),
    ensures
        steady_gate_error(cfg, i) is None,
        report_failures(cfg, i, changes, cfg.rows@.len()).len() == 0,
{
    lemma_rows_pass_themselves(cfg, i, changes, cfg.rows@.len());
}

} // verus!
