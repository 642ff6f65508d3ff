//! The perf gate over steady-state artifacts: what passes, and what fails.
use crate::artifact;
use crate::artifact::{SteadyStatePhase, SteadyStateRow, SteadyStateRows};
use crate::binary64::Float64;
use crate::figure::Figure;
use crate::laws::change;
use crate::steadygate;
use crate::steadygate::{RowChanges, SteadyStateGateConfig, SteadyStateGateInputs};
use crate::text;
use vstd::prelude::*;

verus! {

pub open spec fn ops_fell(
    b: SteadyStateRow,
    c: SteadyStateRow,
    q: RowChanges,
    cfg: SteadyStateGateConfig,
) -> bool {
    change::fell(
        c.throughput->0.ops_per_sec.value,
        b.throughput->0.ops_per_sec.value,
        q.ops.value,
        cfg.max_ops_regression_pct.value,
    )
}

pub open spec fn p95_rose(
    b: SteadyStateRow,
    c: SteadyStateRow,
    q: RowChanges,
    cfg: SteadyStateGateConfig,
) -> bool {
    change::rose(
        c.latency->0.p95_ms.value,
        b.latency->0.p95_ms.value,
        q.p95.value,
        cfg.max_latency_regression_pct.value,
    )
}

pub open spec fn p99_rose(
    b: SteadyStateRow,
    c: SteadyStateRow,
    q: RowChanges,
    cfg: SteadyStateGateConfig,
) -> bool {
    change::rose(
        c.latency->0.p99_ms.value,
        b.latency->0.p99_ms.value,
        q.p99.value,
        cfg.max_latency_regression_pct.value,
    )
}

/// The comparison of two completed, measured rows finds a failure for throughput exactly where it
/// fell by more than its limit, and one for each latency exactly where that rose by more than its
/// limit; a gain in throughput or a drop in latency is no failure, however large.
pub proof fn lemma_completed_rows_judged(
    name: Seq<char>,
    b: SteadyStateRow,
    c: SteadyStateRow,
    q: RowChanges,
    cfg: SteadyStateGateConfig,
)
    requires
        name != "idle"@,
        b.status@ == "completed"@,
        c.status@ == "completed"@,
        b.throughput is Some && b.latency is Some,
        c.throughput is Some && c.latency is Some,
        !cfg.max_ops_regression_pct.value.less(Float64::zero_spec()),
        !cfg.max_latency_regression_pct.value.less(Float64::zero_spec()),
    ensures
        ({
            let found = steadygate::compared_failures(name, b, c, q, cfg);
            let ops = change::one_if(ops_fell(b, c, q, cfg));
            let p95 = change::one_if(p95_rose(b, c, q, cfg));
            let p99 = change::one_if(p99_rose(b, c, q, cfg));
            &&& found.len() == ops + p95 + p99
            &&& ops == 1 ==> (name + " OPS regressed "@).is_prefix_of(found[0])
            &&& p95 == 1 ==> (name + " p95 regressed "@).is_prefix_of(found[ops as int])
            &&& p99 == 1 ==> (name + " p99 regressed "@).is_prefix_of(found[(ops + p95) as int])
        }),
{
    let b_ops = b.throughput->0.ops_per_sec;
    let c_ops = c.throughput->0.ops_per_sec;
    let b_lat = b.latency->0;
    let c_lat = c.latency->0;
    let limit = cfg.max_latency_regression_pct;
    change::lemma_change_judged(
        c_ops.value,
        b_ops.value,
        q.ops.value,
        cfg.max_ops_regression_pct.value,
    );
    change::lemma_change_judged(
        c_lat.p95_ms.value,
        b_lat.p95_ms.value,
        q.p95.value,
        limit.value,
    );
    change::lemma_change_judged(
        c_lat.p99_ms.value,
        b_lat.p99_ms.value,
        q.p99.value,
        limit.value,
    );
    lemma_begins(name, " OPS regressed "@, c_ops, b_ops, q.ops, "%, below -"@, cfg.max_ops_regression_pct);
    lemma_begins(name, " p95 regressed "@, c_lat.p95_ms, b_lat.p95_ms, q.p95, "%, above "@, limit);
    lemma_begins(name, " p99 regressed "@, c_lat.p99_ms, b_lat.p99_ms, q.p99, "%, above "@, limit);
}

proof fn lemma_begins(
    name: Seq<char>,
    what: Seq<char>,
    current: Figure,
    baseline: Figure,
    q: crate::figure::Change,
    bound: Seq<char>,
    limit: Figure,
)
    ensures
        (name + what).is_prefix_of(
            steadygate::regression(name, what, current, baseline, q, bound, limit),
        ),
{
    let all = steadygate::regression(name, what, current, baseline, q, bound, limit);
    assert(all.take((name + what).len() as int) =~= name + what);
}

/// A time that was measured: finite and not negative.
pub open spec fn is_time(t: Float64) -> bool {
    t.is_finite_spec() && !t.less(Float64::zero_spec())
}

pub open spec fn phase_sound(p: SteadyStatePhase, row_status: Seq<char>) -> bool {
    &&& is_time(p.elapsed_ms)
    &&& p.status@ == "completed"@ || (row_status != "completed"@ && (p.status@ == "unsupported"@
        || p.status@ == "failed"@))
}

/// Whether a row describes a task that can have been run.
pub open spec fn task_sound(row: SteadyStateRow) -> bool {
    &&& row.task.records > 0
    &&& row.task.clients > 0
    &&& row.task.threads > 0
    &&& row.task.measurement_secs > 0
    &&& row.task.worker_seed_derivation@.len() > 0
    &&& row.task.operation_mix@.len() > 0
    &&& row.task.key_selection@.len() > 0
    &&& row.task.operation_mix_period > 0
    &&& is_time(row.task.zipfian_exponent)
}

pub open spec fn phases_sound(row: SteadyStateRow) -> bool {
    &&& phase_sound(row.phases.prepare, row.status@)
    &&& phase_sound(row.phases.warmup, row.status@)
    &&& phase_sound(row.phases.measure, row.status@)
    &&& phase_sound(row.phases.drain, row.status@)
    &&& phase_sound(row.phases.cleanup, row.status@)
}

/// Whether a completed row with client operations measured what it must.
pub open spec fn measurement_sound(row: SteadyStateRow) -> bool {
    &&& row.throughput matches Some(t) && {
        &&& t.completed_operations > 0
        &&& t.ops_per_sec.value.is_finite_spec()
        &&& Float64::zero_spec().less(t.ops_per_sec.value)
        &&& t.per_second_windows@.len() > 0
        &&& forall|i: int|
            0 <= i < t.per_second_windows@.len() ==> is_time(#[trigger] t.per_second_windows@[i])
    }
    &&& row.validation matches Some(v) && {
        &&& v.errors == 0
        &&& v.observed_mix@.len() > 0
        &&& v.expected_mix_prefix@.len() > 0
    }
    &&& row.latency matches Some(l) && {
        &&& row.task.latency_sample_every > 0 ==> l.sample_count > 0
        &&& is_time(l.p50_ms)
        &&& is_time(l.p95_ms.value)
        &&& is_time(l.p99_ms.value)
        &&& l.p50_ms.less_or_equal(l.p95_ms.value)
        &&& l.p95_ms.value.less_or_equal(l.p99_ms.value)
    }
    &&& row.drain matches Some(d) && is_time(d.elapsed_ms) && !d.timed_out
}

/// Whether a completed idle row did nothing, and says so.
pub open spec fn idleness_sound(row: SteadyStateRow) -> bool {
    &&& row.validation matches Some(v) && {
        &&& v.errors == 0
        &&& v.read_hits == 0
        &&& v.read_misses == 0
        &&& v.updates == 0
        &&& v.scan_count_errors == 0
        &&& v.observed_mix@ == "none"@
        &&& v.expected_mix_prefix@ == "none"@
    }
    &&& row.throughput is None
    &&& row.latency is None
    &&& row.drain matches Some(d) && is_time(d.elapsed_ms) && !d.timed_out
}

pub open spec fn optional(name: Seq<char>, cfg: SteadyStateGateConfig) -> bool {
    exists|k: int| 0 <= k < cfg.optional_rows@.len() && (#[trigger] cfg.optional_rows@[k])@ == name
}

/// Whether nothing is wrong with a row: its task and its phases are sound, it names its database, and
/// it is completed with what it must have measured, or unsupported with a reason and optional.
pub open spec fn sound(name: Seq<char>, row: SteadyStateRow, cfg: SteadyStateGateConfig) -> bool {
    &&& row.suite@ == "steady-state"@
    &&& row.database matches artifact::JsonValue::Text { text: d } && text::trim(d@).len() > 0
    &&& task_sound(row)
    &&& phases_sound(row)
    &&& if row.status@ == "completed"@ {
        if name == "idle"@ {
            idleness_sound(row)
        } else {
            measurement_sound(row)
        }
    } else {
        &&& row.status@ == "unsupported"@
        &&& optional(name, cfg)
        &&& row.unsupported_reason matches Some(reason) && reason@.len() > 0
    }
}

proof fn lemma_phase(
    name: Seq<char>,
    source: Seq<char>,
    row_status: Seq<char>,
    which: Seq<char>,
    p: SteadyStatePhase,
)
    ensures
        artifact::phase_failures(name, source, row_status, which, p).len() == 0 <==> phase_sound(
            p,
            row_status,
        ),
{
}

#[verifier::spinoff_prover]
proof fn lemma_phases(name: Seq<char>, row: SteadyStateRow, source: Seq<char>)
    ensures
        artifact::phases_failures(name, row, source).len() == 0 <==> phases_sound(row),
{
    let s = row.status@;
    let a = artifact::phase_failures(name, source, s, "prepare"@, row.phases.prepare);
    let b = artifact::phase_failures(name, source, s, "warmup"@, row.phases.warmup);
    let c = artifact::phase_failures(name, source, s, "measure"@, row.phases.measure);
    let d = artifact::phase_failures(name, source, s, "drain"@, row.phases.drain);
    let e = artifact::phase_failures(name, source, s, "cleanup"@, row.phases.cleanup);
    lemma_phase(name, source, s, "prepare"@, row.phases.prepare);
    lemma_phase(name, source, s, "warmup"@, row.phases.warmup);
    lemma_phase(name, source, s, "measure"@, row.phases.measure);
    lemma_phase(name, source, s, "drain"@, row.phases.drain);
    lemma_phase(name, source, s, "cleanup"@, row.phases.cleanup);
    assert(artifact::phases_failures(name, row, source).len() == a.len() + b.len() + c.len()
        + d.len() + e.len());
}

#[verifier::spinoff_prover]
proof fn lemma_task(name: Seq<char>, row: SteadyStateRow, source: Seq<char>)
    ensures
        artifact::task_failures(name, row.task, source).len() == 0 <==> task_sound(row),
{
}

#[verifier::spinoff_prover]
proof fn lemma_drain(name: Seq<char>, row: SteadyStateRow, source: Seq<char>)
    ensures
        steadygate::drain_failures(name, row.drain, source).len() == 0 <==> (
        row.drain matches Some(d) && is_time(d.elapsed_ms) && !d.timed_out),
{
}

#[verifier::spinoff_prover]
proof fn lemma_throughput(name: Seq<char>, row: SteadyStateRow, source: Seq<char>)
    requires
        row.throughput is Some,
    ensures
        steadygate::throughput_failures(name, row.throughput->0, source).len() == 0 <==> {
            let t = row.throughput->0;
            &&& t.completed_operations > 0
            &&& t.ops_per_sec.value.is_finite_spec()
            &&& Float64::zero_spec().less(t.ops_per_sec.value)
            &&& t.per_second_windows@.len() > 0
            &&& forall|i: int|
                0 <= i < t.per_second_windows@.len() ==> is_time(
                    #[trigger] t.per_second_windows@[i],
                )
        },
{
    let t = row.throughput->0;
    let some = exists|i: int|
        0 <= i < t.per_second_windows@.len() && (
        #[trigger] t.per_second_windows@[i]).invalid_quantity_spec();
    let all = forall|i: int|
        0 <= i < t.per_second_windows@.len() ==> is_time(#[trigger] t.per_second_windows@[i]);
    assert(some == !all) by {
        if !all {
            let i = choose|i: int|
                0 <= i < t.per_second_windows@.len() && !is_time(
                    #[trigger] t.per_second_windows@[i],
                );
            assert(t.per_second_windows@[i].invalid_quantity_spec());
        }
    }
}

#[verifier::spinoff_prover]
proof fn lemma_latency(name: Seq<char>, row: SteadyStateRow, source: Seq<char>)
    requires
        row.latency is Some,
    ensures
        steadygate::latency_row_failures(
            name,
            row.latency->0,
            row.task.latency_sample_every,
            source,
        ).len() == 0 <==> {
            let l = row.latency->0;
            &&& row.task.latency_sample_every > 0 ==> l.sample_count > 0
            &&& is_time(l.p50_ms)
            &&& is_time(l.p95_ms.value)
            &&& is_time(l.p99_ms.value)
            &&& l.p50_ms.less_or_equal(l.p95_ms.value)
            &&& l.p95_ms.value.less_or_equal(l.p99_ms.value)
        },
{
}

#[verifier::spinoff_prover]
proof fn lemma_measured(name: Seq<char>, row: SteadyStateRow, source: Seq<char>)
    ensures
        steadygate::completed_failures(name, row, source).len() == 0 <==> measurement_sound(row),
{
    lemma_drain(name, row, source);
    if row.throughput is Some {
        lemma_throughput(name, row, source);
    }
    if row.latency is Some {
        lemma_latency(name, row, source);
        assert(steadygate::latency_on_failures(name, row, source).len()
            == steadygate::latency_row_failures(
            name,
            row.latency->0,
            row.task.latency_sample_every,
            source,
        ).len() + steadygate::drain_failures(name, row.drain, source).len());
    }
}

#[verifier::spinoff_prover]
proof fn lemma_idle(name: Seq<char>, row: SteadyStateRow, source: Seq<char>)
    ensures
        steadygate::idle_failures(name, row, source).len() == 0 <==> idleness_sound(row),
{
}

proof fn lemma_optional(name: Seq<char>, cfg: SteadyStateGateConfig)
    ensures
        steadygate::is_optional(name, cfg) == optional(name, cfg),
{
    let names = text::texts(cfg.optional_rows@);
    if names.contains(name) {
        let k = choose|k: int| 0 <= k < names.len() && names[k] == name;
        assert(cfg.optional_rows@[k]@ == name);
    }
    if optional(name, cfg) {
        let k = choose|k: int|
            0 <= k < cfg.optional_rows@.len() && (#[trigger] cfg.optional_rows@[k])@ == name;
        assert(names[k] == name);
    }
}

/// Nothing is found wrong with a row exactly where the row is sound, whatever its artifact is called.
#[verifier::spinoff_prover]
pub proof fn lemma_row_valid_iff(
    name: Seq<char>,
    row: SteadyStateRow,
    source: Seq<char>,
    cfg: SteadyStateGateConfig,
)
    ensures
        steadygate::row_failures(name, row, source, cfg).len() == 0 <==> sound(name, row, cfg),
{
    lemma_task(name, row, source);
    lemma_phases(name, row, source);
    lemma_measured(name, row, source);
    lemma_idle(name, row, source);
    lemma_optional(name, cfg);
    let t = artifact::task_failures(name, row.task, source);
    let p = artifact::phases_failures(name, row, source);
    let s = steadygate::status_failures(name, row, source, cfg);
    assert(steadygate::has_database(row) == (
    row.database matches artifact::JsonValue::Text { text: d } && text::trim(d@).len() > 0));
    assert(steadygate::row_failures(name, row, source, cfg).len() == change::one_if(
        row.suite@ != "steady-state"@,
    ) + change::one_if(!steadygate::has_database(row)) + t.len() + p.len() + s.len());
    assert("completed"@ != "unsupported"@) by {
        reveal_strlit("completed");
        reveal_strlit("unsupported");
        assert("completed"@.len() != "unsupported"@.len());
    }
    assert("failed"@ != "unsupported"@) by {
        reveal_strlit("failed");
        reveal_strlit("unsupported");
        assert("failed"@.len() != "unsupported"@.len());
    }
}

/// Whether two rows of one name may be compared: the same task, the same sync setting and, unless
/// that is waived, the same database.
pub open spec fn comparable(b: SteadyStateRow, c: SteadyStateRow, cfg: SteadyStateGateConfig) -> bool {
    &&& cfg.allow_database_mismatch || b.database.equals(c.database)
    &&& b.sync == c.sync
    &&& b.task.records == c.task.records
    &&& b.task.clients == c.task.clients
    &&& b.task.threads == c.task.threads
    &&& b.task.warmup_secs == c.task.warmup_secs
    &&& b.task.measurement_secs == c.task.measurement_secs
    &&& b.task.latency_sample_every == c.task.latency_sample_every
    &&& b.task.seed == c.task.seed
    &&& b.task.worker_seed_derivation@ == c.task.worker_seed_derivation@
    &&& b.task.operation_mix@ == c.task.operation_mix@
    &&& b.task.operation_mix_period == c.task.operation_mix_period
    &&& b.task.key_selection@ == c.task.key_selection@
    &&& b.task.zipfian_exponent.equals(c.task.zipfian_exponent)
}

/// Whether a row passes: it is sound in both artifacts, the two can be compared, and either it is
/// idle, or it is completed in both and did not get too much slower, or it is unsupported in both.
pub open spec fn row_passes(
    name: Seq<char>,
    b: SteadyStateRow,
    c: SteadyStateRow,
    q: RowChanges,
    cfg: SteadyStateGateConfig,
) -> bool {
    &&& sound(name, b, cfg)
    &&& sound(name, c, cfg)
    &&& comparable(b, c, cfg)
    &&& name == "idle"@ || {
        &&& b.status@ == c.status@
        &&& b.status@ == "completed"@ ==> {
            &&& !ops_fell(b, c, q, cfg)
            &&& !p95_rose(b, c, q, cfg)
            &&& !p99_rose(b, c, q, cfg)
        }
    }
}

#[verifier::spinoff_prover]
proof fn lemma_comparable(
    name: Seq<char>,
    b: SteadyStateRow,
    c: SteadyStateRow,
    cfg: SteadyStateGateConfig,
)
    ensures
        steadygate::comparison_failures(name, b, c, cfg.allow_database_mismatch).len() == 0 <==> comparable(
            b,
            c,
            cfg,
        ),
{
}

/// A row fails nothing exactly where it passes.
#[verifier::spinoff_prover]
pub proof fn lemma_row_passes_iff(
    name: Seq<char>,
    b: SteadyStateRow,
    c: SteadyStateRow,
    q: RowChanges,
    cfg: SteadyStateGateConfig,
)
    requires
        !cfg.max_ops_regression_pct.value.less(Float64::zero_spec()),
        !cfg.max_latency_regression_pct.value.less(Float64::zero_spec()),
    ensures
        steadygate::gate_row_failures(name, b, c, q, cfg).len() == 0 <==> row_passes(
            name,
            b,
            c,
            q,
            cfg,
        ),
{
    lemma_row_valid_iff(name, b, "baseline"@, cfg);
    lemma_row_valid_iff(name, c, "current"@, cfg);
    lemma_comparable(name, b, c, cfg);
    lemma_optional(name, cfg);
    let compared = steadygate::compared_failures(name, b, c, q, cfg);
    assert(steadygate::gate_row_failures(name, b, c, q, cfg).len() == steadygate::row_failures(
        name,
        b,
        "baseline"@,
        cfg,
    ).len() + steadygate::row_failures(name, c, "current"@, cfg).len()
        + steadygate::comparison_failures(name, b, c, cfg.allow_database_mismatch).len()
        + compared.len());
    assert("completed"@ != "unsupported"@) by {
        reveal_strlit("completed");
        reveal_strlit("unsupported");
        assert("completed"@.len() != "unsupported"@.len());
    }
    if sound(name, b, cfg) && sound(name, c, cfg) && name != "idle"@ {
        if b.status@ == "completed"@ && c.status@ == "completed"@ {
            lemma_completed_rows_judged(name, b, c, q, cfg);
        } else {
            assert(compared.len() == change::one_if(b.status@ != c.status@));
        }
    }
}

/// An artifact has a row of the name: the one that is judged, which has that name.
pub proof fn lemma_row_of(all: SteadyStateRows, name: Seq<char>, n: nat)
    requires
        n <= all.rows@.len(),
    ensures
        artifact::named(all.rows@, name, n) is Some <==> exists|k: int|
            0 <= k < n && (#[trigger] all.rows@[k]).name@ == name,
        artifact::named(all.rows@, name, n) matches Some(k) ==> {
            &&& 0 <= k < n
            &&& all.rows@[k].name@ == name
            &&& forall|j: int| 0 <= j < k ==> (#[trigger] all.rows@[j]).name@ != name
        },
    decreases n,
{
    if n > 0 {
        lemma_row_of(all, name, (n - 1) as nat);
        assert(all.rows@[n - 1].name@ == name || all.rows@[n - 1].name@ != name);
    }
}

pub open spec fn has_row(all: SteadyStateRows, name: Seq<char>) -> bool {
    exists|k: int| 0 <= k < all.rows@.len() && (#[trigger] all.rows@[k]).name@ == name
}

proof fn lemma_rows_present(i: SteadyStateGateInputs, rows: Seq<Seq<char>>, n: nat)
    requires
        n <= rows.len(),
    ensures
        steadygate::rows_error(i, rows, n) is None <==> forall|k: int|
            0 <= k < n ==> has_row(i.baseline, #[trigger] rows[k]) && has_row(i.current, rows[k]),
    decreases n,
{
    if n > 0 {
        lemma_rows_present(i, rows, (n - 1) as nat);
        lemma_row_of(i.baseline, rows[n - 1], i.baseline.rows@.len());
        lemma_row_of(i.current, rows[n - 1], i.current.rows@.len());
        assert(has_row(i.baseline, rows[n - 1]) || !has_row(i.baseline, rows[n - 1]));
    }
}

proof fn lemma_report(
    cfg: SteadyStateGateConfig,
    i: SteadyStateGateInputs,
    changes: Seq<RowChanges>,
    n: nat,
)
    requires
        n <= cfg.rows@.len(),
        !cfg.max_ops_regression_pct.value.less(Float64::zero_spec()),
        !cfg.max_latency_regression_pct.value.less(Float64::zero_spec()),
    ensures
        steadygate::report_lines(cfg, i, changes, n).len() == n,
        steadygate::report_failures(cfg, i, changes, n).len() == 0 <==> forall|k: int|
            0 <= k < n ==> row_passes(
                (#[trigger] cfg.rows@[k])@,
                steadygate::row_of(i.baseline, cfg.rows@[k]@),
                steadygate::row_of(i.current, cfg.rows@[k]@),
                changes[k],
                cfg,
            ),
    decreases n,
{
    if n > 0 {
        let m = (n - 1) as nat;
        lemma_report(cfg, i, changes, m);
        let name = cfg.rows@[n - 1]@;
        let b = steadygate::row_of(i.baseline, name);
        let c = steadygate::row_of(i.current, name);
        lemma_row_passes_iff(name, b, c, changes[n - 1], cfg);
        assert(steadygate::report_failures(cfg, i, changes, n).len() == steadygate::report_failures(
            cfg,
            i,
            changes,
            m,
        ).len() + steadygate::gate_row_failures(name, b, c, changes[n - 1], cfg).len());
    }
}

/// The perf gate can be judged exactly where neither limit is negative, a row is asked for, and both
/// artifacts have every row that is.
pub proof fn lemma_gate_judged_iff(cfg: SteadyStateGateConfig, i: SteadyStateGateInputs)
    ensures
        steadygate::steady_gate_error(cfg, i) is None <==> {
            &&& !cfg.max_ops_regression_pct.value.less(Float64::zero_spec())
            &&& !cfg.max_latency_regression_pct.value.less(Float64::zero_spec())
            &&& cfg.rows@.len() > 0
            &&& forall|k: int|
                0 <= k < cfg.rows@.len() ==> has_row(i.baseline, (#[trigger] cfg.rows@[k])@)
                    && has_row(i.current, cfg.rows@[k]@)
        },
{
    let rows = text::texts(cfg.rows@);
    lemma_rows_present(i, rows, rows.len());
    let all = forall|k: int|
        0 <= k < rows.len() ==> has_row(i.baseline, #[trigger] rows[k]) && has_row(
            i.current,
            rows[k],
        );
    let each = forall|k: int|
        0 <= k < cfg.rows@.len() ==> has_row(i.baseline, (#[trigger] cfg.rows@[k])@) && has_row(
            i.current,
            cfg.rows@[k]@,
        );
    assert(all == each) by {
        if all {
            assert forall|k: int| 0 <= k < cfg.rows@.len() implies has_row(
                i.baseline,
                (#[trigger] cfg.rows@[k])@,
            ) && has_row(i.current, cfg.rows@[k]@) by {
                assert(rows[k] == cfg.rows@[k]@);
            }
        }
        if each {
            assert forall|k: int| 0 <= k < rows.len() implies has_row(
                i.baseline,
                #[trigger] rows[k],
            ) && has_row(i.current, rows[k]) by {
                assert(rows[k] == cfg.rows@[k]@);
            }
        }
    }
}

/// The perf gate passes exactly where every row passes: the rows of the two artifacts with its name
/// are sound and comparable, and none lost more throughput or gained more latency than allowed.
pub proof fn lemma_gate_passes_iff(
    cfg: SteadyStateGateConfig,
    i: SteadyStateGateInputs,
    changes: Seq<RowChanges>,
)
    requires
        steadygate::steady_gate_error(cfg, i) is None,
    ensures
        steadygate::report_lines(cfg, i, changes, cfg.rows@.len()).len() == cfg.rows@.len(),
        steadygate::report_failures(cfg, i, changes, cfg.rows@.len()).len() == 0 <==> forall|k: int|
            0 <= k < cfg.rows@.len() ==> row_passes(
                (#[trigger] cfg.rows@[k])@,
                steadygate::row_of(i.baseline, cfg.rows@[k]@),
                steadygate::row_of(i.current, cfg.rows@[k]@),
                changes[k],
                cfg,
            ),
        forall|k: int|
            0 <= k < cfg.rows@.len() ==> {
                &&& steadygate::row_of(i.baseline, (#[trigger] cfg.rows@[k])@).name@
                    == cfg.rows@[k]@
                &&& steadygate::row_of(i.current, cfg.rows@[k]@).name@ == cfg.rows@[k]@
            },
{
    lemma_gate_judged_iff(cfg, i);
    lemma_report(cfg, i, changes, cfg.rows@.len());
    assert forall|k: int| 0 <= k < cfg.rows@.len() implies {
        &&& steadygate::row_of(i.baseline, (#[trigger] cfg.rows@[k])@).name@ == cfg.rows@[k]@
        &&& steadygate::row_of(i.current, cfg.rows@[k]@).name@ == cfg.rows@[k]@
    } by {
        lemma_row_of(i.baseline, cfg.rows@[k]@, i.baseline.rows@.len());
        lemma_row_of(i.current, cfg.rows@[k]@, i.current.rows@.len());
        assert(has_row(i.baseline, cfg.rows@[k]@) && has_row(i.current, cfg.rows@[k]@));
    }
}

} // verus!
