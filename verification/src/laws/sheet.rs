//! The perf gate over CSV tables: what passes, and what fails.
use crate::binary64::Float64;
use crate::gate;
use crate::gate::{GateConfig, GateFigures, GateInputs};
use crate::laws::change;
use crate::table;
use crate::table::{BenchCsv, BenchRow, NamedRow};
use crate::text;
use vstd::prelude::*;
use vstd::set_lib::*;

verus! {

/// The positions at which the current ratio is above the baseline ratio.
pub open spec fn improved_rows(f: GateFigures, n: nat) -> Set<int> {
    set_int_range(0, n as int).filter(
        |k: int| f.ratios@[k].baseline.less(f.ratios@[k].current),
    )
}

/// The improvements are the positions at which the current ratio is above the baseline ratio, each
/// counted once.
pub proof fn lemma_improvements_counted(f: GateFigures, n: nat)
    ensures
        improved_rows(f, n).finite(),
        gate::improvements(f, n) == improved_rows(f, n).len(),
    decreases n,
{
    let all = improved_rows(f, n);
    lemma_int_range(0, n as int);
    if n == 0 {
        assert(all =~= Set::empty());
    } else {
        let m = (n - 1) as nat;
        lemma_int_range(0, m as int);
        lemma_improvements_counted(f, m);
        if f.ratios@[n - 1].baseline.less(f.ratios@[n - 1].current) {
            assert(all =~= improved_rows(f, m).insert(n - 1));
        } else {
            assert(all =~= improved_rows(f, m));
        }
    }
}

/// Where no current ratio is above its baseline, nothing improved; and a gate that asks for an
/// improvement does not pass.
pub proof fn lemma_no_improvement_fails(cfg: GateConfig, i: GateInputs, f: GateFigures)
    requires
        forall|k: int|
            0 <= k < cfg.ratio_rows@.len() ==> !(#[trigger] f.ratios@[k]).baseline.less(
                f.ratios@[k].current,
            ),
        cfg.min_ratio_improvements > 0,
    ensures
        gate::gate_failures(cfg, i, f).len() > 0,
{
    let n = cfg.ratio_rows@.len();
    lemma_improvements_counted(f, n);
    assert(improved_rows(f, n) =~= Set::empty());
    assert(gate::ratio_failures(cfg, f).len() == 1);
}

pub open spec fn sync_fell(cfg: GateConfig, i: GateInputs, f: GateFigures, k: int) -> bool {
    let name = cfg.rows@[k]@;
    change::fell(
        gate::found(i.current_sync, name, "current sync"@).ops.value,
        gate::found(i.baseline_sync, name, "baseline sync"@).ops.value,
        f.sync@[k].value,
        cfg.max_sync_regression_pct.value,
    )
}

pub open spec fn below_fjall(
    cfg: GateConfig,
    i: GateInputs,
    fjall: BenchCsv,
    f: GateFigures,
    k: int,
) -> bool {
    let name = cfg.rows@[k]@;
    change::fell(
        gate::found(i.current_sync, name, "current sync"@).ops.value,
        gate::found(fjall, name, "Fjall sync"@).ops.value,
        f.fjall@[k].value,
        cfg.max_sync_regression_pct.value,
    )
}

pub open spec fn latency_rose(
    cfg: GateConfig,
    baseline: BenchCsv,
    current: BenchCsv,
    f: GateFigures,
    k: int,
) -> bool {
    let name = cfg.rows@[k]@;
    let b = gate::found(baseline, name, "baseline latency sync"@);
    let c = gate::found(current, name, "current latency sync"@);
    let limit = cfg.max_latency_regression_pct.value;
    ||| change::rose(c.p95_ms.value, b.p95_ms.value, f.latency_p95@[k].value, limit)
    ||| change::rose(c.p99_ms.value, b.p99_ms.value, f.latency_p99@[k].value, limit)
}

pub open spec fn limits_ok(cfg: GateConfig) -> bool {
    &&& !cfg.max_sync_regression_pct.value.less(Float64::zero_spec())
    &&& !cfg.max_latency_regression_pct.value.less(Float64::zero_spec())
}

proof fn lemma_sync(cfg: GateConfig, i: GateInputs, f: GateFigures, n: nat)
    requires
        limits_ok(cfg),
        n <= cfg.rows@.len(),
    ensures
        gate::sync_failures(cfg, i, f, n).len() == 0 <==> forall|k: int|
            0 <= k < n ==> !#[trigger] sync_fell(cfg, i, f, k),
    decreases n,
{
    if n > 0 {
        lemma_sync(cfg, i, f, (n - 1) as nat);
        let name = cfg.rows@[n - 1]@;
        let b = gate::found(i.baseline_sync, name, "baseline sync"@);
        let c = gate::found(i.current_sync, name, "current sync"@);
        change::lemma_change_judged(
            c.ops.value,
            b.ops.value,
            f.sync@[n - 1].value,
            cfg.max_sync_regression_pct.value,
        );
        assert(gate::sync_failures(cfg, i, f, n).len() == gate::sync_failures(
            cfg,
            i,
            f,
            (n - 1) as nat,
        ).len() + change::one_if(sync_fell(cfg, i, f, n - 1)));
    }
}

proof fn lemma_fjall(cfg: GateConfig, i: GateInputs, fjall: BenchCsv, f: GateFigures, n: nat)
    requires
        limits_ok(cfg),
        n <= cfg.rows@.len(),
    ensures
        gate::fjall_failures(cfg, i.current_sync, fjall, f, n).len() == 0 <==> forall|k: int|
            0 <= k < n ==> !#[trigger] below_fjall(cfg, i, fjall, f, k),
    decreases n,
{
    if n > 0 {
        lemma_fjall(cfg, i, fjall, f, (n - 1) as nat);
        let name = cfg.rows@[n - 1]@;
        let o = gate::found(fjall, name, "Fjall sync"@);
        let c = gate::found(i.current_sync, name, "current sync"@);
        change::lemma_change_judged(
            c.ops.value,
            o.ops.value,
            f.fjall@[n - 1].value,
            cfg.max_sync_regression_pct.value,
        );
        assert(gate::fjall_failures(cfg, i.current_sync, fjall, f, n).len()
            == gate::fjall_failures(cfg, i.current_sync, fjall, f, (n - 1) as nat).len()
            + change::one_if(below_fjall(cfg, i, fjall, f, n - 1)));
    }
}

proof fn lemma_latency(
    cfg: GateConfig,
    baseline: BenchCsv,
    current: BenchCsv,
    f: GateFigures,
    n: nat,
)
    requires
        limits_ok(cfg),
        n <= cfg.rows@.len(),
    ensures
        gate::latency_failures(cfg, baseline, current, f, n).len() == 0 <==> forall|k: int|
            0 <= k < n ==> !#[trigger] latency_rose(cfg, baseline, current, f, k),
    decreases n,
{
    if n > 0 {
        lemma_latency(cfg, baseline, current, f, (n - 1) as nat);
        let name = cfg.rows@[n - 1]@;
        let b = gate::found(baseline, name, "baseline latency sync"@);
        let c = gate::found(current, name, "current latency sync"@);
        let limit = cfg.max_latency_regression_pct.value;
        change::lemma_change_judged(
            c.p95_ms.value,
            b.p95_ms.value,
            f.latency_p95@[n - 1].value,
            limit,
        );
        change::lemma_change_judged(
            c.p99_ms.value,
            b.p99_ms.value,
            f.latency_p99@[n - 1].value,
            limit,
        );
        let p95 = change::rose(c.p95_ms.value, b.p95_ms.value, f.latency_p95@[n - 1].value, limit);
        let p99 = change::rose(c.p99_ms.value, b.p99_ms.value, f.latency_p99@[n - 1].value, limit);
        assert(latency_rose(cfg, baseline, current, f, n - 1) == (p95 || p99));
        assert(gate::latency_failures(cfg, baseline, current, f, n).len()
            == gate::latency_failures(cfg, baseline, current, f, (n - 1) as nat).len()
            + change::one_if(p95) + change::one_if(p99));
    }
}

/// The perf gate passes exactly where no row's sync throughput fell too far below the baseline,
/// enough rows have a current sync/no-sync ratio above their baseline ratio, no row fell too far
/// below Fjall, where Fjall is given, and neither latency of a row rose too far, where latencies are
/// given. A gain in throughput or a drop in latency never fails it.
pub proof fn lemma_gate_passes_iff(cfg: GateConfig, i: GateInputs, f: GateFigures)
    requires
        limits_ok(cfg),
    ensures
        gate::gate_failures(cfg, i, f).len() == 0 <==> {
            &&& forall|k: int| 0 <= k < cfg.rows@.len() ==> !#[trigger] sync_fell(cfg, i, f, k)
            &&& improved_rows(f, cfg.ratio_rows@.len()).len() >= cfg.min_ratio_improvements
            &&& i.fjall_sync matches Some(fjall) ==> forall|k: int|
                0 <= k < cfg.rows@.len() ==> !#[trigger] below_fjall(cfg, i, fjall, f, k)
            &&& i.baseline_latency_sync is Some && i.current_latency_sync is Some ==> forall|k: int|
                0 <= k < cfg.rows@.len() ==> !#[trigger] latency_rose(
                    cfg,
                    i.baseline_latency_sync->0,
                    i.current_latency_sync->0,
                    f,
                    k,
                )
        },
{
    let n = cfg.rows@.len();
    lemma_sync(cfg, i, f, n);
    lemma_improvements_counted(f, cfg.ratio_rows@.len());
    if let Some(fjall) = i.fjall_sync {
        lemma_fjall(cfg, i, fjall, f, n);
    }
    if i.baseline_latency_sync is Some && i.current_latency_sync is Some {
        lemma_latency(cfg, i.baseline_latency_sync->0, i.current_latency_sync->0, f, n);
    }
    let a = gate::sync_failures(cfg, i, f, n);
    let r = gate::ratio_failures(cfg, f);
    let o = gate::fjall_part_failures(cfg, i, f);
    let l = gate::latency_part_failures(cfg, i, f);
    assert(gate::gate_failures(cfg, i, f).len() == a.len() + r.len() + o.len() + l.len());
}

/// Whether exactly one row has the alias, and it is the one at `k`.
pub open spec fn only_alias(rows: Seq<NamedRow>, name: Seq<char>, k: int) -> bool {
    &&& 0 <= k < rows.len()
    &&& forall|j: int|
        0 <= j < rows.len() ==> ((table::alias((#[trigger] rows[j]).label@) == name) <==> j == k)
}

pub open spec fn has_label(rows: Seq<NamedRow>, name: Seq<char>) -> bool {
    exists|k: int| 0 <= k < rows.len() && (#[trigger] rows[k]).label@ == name
}

proof fn lemma_labelled(rows: Seq<NamedRow>, name: Seq<char>, n: nat)
    requires
        n <= rows.len(),
    ensures
        match table::labelled(rows, name, n) {
            Some(k) => {
                &&& 0 <= k < n
                &&& rows[k].label@ == name
                &&& forall|j: int| 0 <= j < k ==> (#[trigger] rows[j]).label@ != name
            },
            None => forall|j: int| 0 <= j < n ==> (#[trigger] rows[j]).label@ != name,
        },
    decreases n,
{
    if n > 0 {
        lemma_labelled(rows, name, (n - 1) as nat);
    }
}

proof fn lemma_alias_count(rows: Seq<NamedRow>, name: Seq<char>, n: nat)
    requires
        n <= rows.len(),
    ensures
        table::alias_count(rows, name, n) == 0 <==> forall|j: int|
            0 <= j < n ==> table::alias((#[trigger] rows[j]).label@) != name,
        table::alias_count(rows, name, n) > 0 ==> {
            let k = table::aliased(rows, name, n);
            &&& 0 <= k < n
            &&& table::alias(rows[k].label@) == name
        },
        table::alias_count(rows, name, n) == 1 ==> {
            let k = table::aliased(rows, name, n);
            forall|j: int|
                0 <= j < n && j != k ==> table::alias((#[trigger] rows[j]).label@) != name
        },
        table::alias_count(rows, name, n) > 1 ==> exists|j: int, k: int|
            0 <= j < k < n && table::alias((#[trigger] rows[j]).label@) == name && table::alias(
                (#[trigger] rows[k]).label@,
            ) == name,
    decreases n,
{
    if n > 0 {
        let m = (n - 1) as nat;
        lemma_alias_count(rows, name, m);
        let before = table::alias_count(rows, name, m);
        if table::alias(rows[n - 1].label@) == name {
            if before > 0 {
                let j = table::aliased(rows, name, m);
                assert(table::alias(rows[j].label@) == name);
                assert(0 <= j < n - 1 < n);
            }
        } else if before > 1 {
            let (j, k) = choose|j: int, k: int|
                0 <= j < k < m && table::alias((#[trigger] rows[j]).label@) == name
                    && table::alias((#[trigger] rows[k]).label@) == name;
            assert(0 <= j < k < n);
        }
    }
}

/// A name stands for the first row with that label; where there is none, for the row with that
/// alias, provided there is exactly one; else for none.
pub proof fn lemma_lookup_decided(rows: Seq<NamedRow>, name: Seq<char>, source: Seq<char>)
    ensures
        has_label(rows, name) ==> table::lookup(rows, name, source) is Ok,
        table::lookup(rows, name, source) matches Ok(k) ==> {
            &&& 0 <= k < rows.len()
            &&& has_label(rows, name) ==> rows[k].label@ == name && forall|j: int|
                0 <= j < k ==> (#[trigger] rows[j]).label@ != name
            &&& !has_label(rows, name) ==> only_alias(rows, name, k)
        },
        table::lookup(rows, name, source) is Err ==> forall|k: int|
            !#[trigger] only_alias(rows, name, k),
{
    let n = rows.len();
    lemma_labelled(rows, name, n);
    lemma_alias_count(rows, name, n);
    if table::lookup(rows, name, source) is Err {
        assert forall|k: int| !#[trigger] only_alias(rows, name, k) by {
            if only_alias(rows, name, k) {
                assert(table::alias(rows[k].label@) == name);
                let (i, j) = choose|i: int, j: int|
                    0 <= i < j < n && table::alias((#[trigger] rows[i]).label@) == name
                        && table::alias((#[trigger] rows[j]).label@) == name;
                assert(i == k && j == k);
            }
        }
    }
}

/// Whether a table has the row that a name stands for.
pub open spec fn present(csv: BenchCsv, name: Seq<char>) -> bool {
    has_label(csv.rows@, name) || exists|k: int| only_alias(csv.rows@, name, k)
}

proof fn lemma_present(csv: BenchCsv, name: Seq<char>, source: Seq<char>)
    ensures
        gate::absence(csv, name, source) is None <==> present(csv, name),
{
    lemma_lookup_decided(csv.rows@, name, source);
}

proof fn lemma_pairs(
    a: BenchCsv,
    a_source: Seq<char>,
    b: BenchCsv,
    b_source: Seq<char>,
    rows: Seq<Seq<char>>,
    n: nat,
)
    requires
        n <= rows.len(),
    ensures
        gate::pairs_error(a, a_source, b, b_source, rows, n) is None <==> forall|k: int|
            0 <= k < n ==> present(a, #[trigger] rows[k]) && present(b, rows[k]),
    decreases n,
{
    if n > 0 {
        lemma_pairs(a, a_source, b, b_source, rows, (n - 1) as nat);
        lemma_present(a, rows[n - 1], a_source);
        lemma_present(b, rows[n - 1], b_source);
        assert(present(a, rows[n - 1]) || !present(a, rows[n - 1]));
    }
}

/// Whether a row has a ratio in both runs: all four tables have it, and its no-sync throughput is
/// positive.
pub open spec fn has_ratios(i: GateInputs, name: Seq<char>) -> bool {
    &&& present(i.baseline_sync, name)
    &&& present(i.current_sync, name)
    &&& present(i.baseline_nosync, name)
    &&& present(i.current_nosync, name)
    &&& !gate::found(i.baseline_nosync, name, "baseline no-sync"@).ops.value.less_or_equal(
        Float64::zero_spec(),
    )
    &&& !gate::found(i.current_nosync, name, "current no-sync"@).ops.value.less_or_equal(
        Float64::zero_spec(),
    )
}

proof fn lemma_ratio_rows(i: GateInputs, rows: Seq<Seq<char>>, n: nat)
    requires
        n <= rows.len(),
    ensures
        gate::ratio_rows_error(i, rows, n) is None <==> forall|k: int|
            0 <= k < n ==> has_ratios(i, #[trigger] rows[k]),
    decreases n,
{
    if n > 0 {
        lemma_ratio_rows(i, rows, (n - 1) as nat);
        let name = rows[n - 1];
        lemma_present(i.baseline_sync, name, "baseline sync"@);
        lemma_present(i.current_sync, name, "current sync"@);
        lemma_present(i.baseline_nosync, name, "baseline no-sync"@);
        lemma_present(i.current_nosync, name, "current no-sync"@);
        assert(has_ratios(i, name) || !has_ratios(i, name));
    }
}

proof fn lemma_misplaced(rows: Seq<Seq<char>>, n: nat)
    requires
        n <= rows.len(),
    ensures
        gate::first_misplaced(rows, n) is None <==> forall|k: int|
            0 <= k < n ==> !gate::names_steady_state(#[trigger] rows[k]),
    decreases n,
{
    if n > 0 {
        lemma_misplaced(rows, (n - 1) as nat);
    }
}

/// The perf gate can be judged exactly where it names no steady-state row, its limits are not
/// negative, it asks for no more improvements than it has ratio rows, every table that is given has
/// its rows, every ratio row has its ratios, and the latency tables are given both or not at all.
pub proof fn lemma_gate_judged_iff(cfg: GateConfig, i: GateInputs)
    ensures
        gate::gate_error(cfg, i) is None <==> {
            let rows = text::texts(cfg.rows@);
            let ratios = text::texts(cfg.ratio_rows@);
            &&& forall|k: int| 0 <= k < rows.len() ==> !gate::names_steady_state(#[trigger] rows[k])
            &&& forall|k: int|
                0 <= k < ratios.len() ==> !gate::names_steady_state(#[trigger] ratios[k])
            &&& limits_ok(cfg)
            &&& cfg.min_ratio_improvements <= cfg.ratio_rows@.len()
            &&& forall|k: int|
                0 <= k < rows.len() ==> present(i.baseline_sync, #[trigger] rows[k]) && present(
                    i.current_sync,
                    rows[k],
                )
            &&& forall|k: int| 0 <= k < ratios.len() ==> has_ratios(i, #[trigger] ratios[k])
            &&& i.fjall_sync matches Some(fjall) ==> forall|k: int|
                0 <= k < rows.len() ==> present(i.current_sync, #[trigger] rows[k]) && present(
                    fjall,
                    rows[k],
                )
            &&& i.baseline_latency_sync is Some == i.current_latency_sync is Some
            &&& i.baseline_latency_sync is Some ==> forall|k: int|
                0 <= k < rows.len() ==> present(i.baseline_latency_sync->0, #[trigger] rows[k])
                    && present(i.current_latency_sync->0, rows[k])
        },
{
    let rows = text::texts(cfg.rows@);
    let ratios = text::texts(cfg.ratio_rows@);
    lemma_misplaced(rows, rows.len());
    lemma_misplaced(ratios, ratios.len());
    lemma_pairs(
        i.baseline_sync,
        "baseline sync"@,
        i.current_sync,
        "current sync"@,
        rows,
        rows.len(),
    );
    lemma_ratio_rows(i, ratios, ratios.len());
    if let Some(fjall) = i.fjall_sync {
        lemma_pairs(i.current_sync, "current sync"@, fjall, "Fjall sync"@, rows, rows.len());
    }
    if i.baseline_latency_sync is Some && i.current_latency_sync is Some {
        lemma_pairs(
            i.baseline_latency_sync->0,
            "baseline latency sync"@,
            i.current_latency_sync->0,
            "current latency sync"@,
            rows,
            rows.len(),
        );
    }
}

/// What a sync line says: the baseline before the current figure.
pub proof fn lemma_lines_in_order(name: Seq<char>, b: BenchRow, c: BenchRow, q: crate::figure::Change)
    ensures
        ("- "@ + name + ": "@ + b.ops.fixed@ + " -> "@ + c.ops.fixed@ + " OPS ("@).is_prefix_of(
            gate::sync_line(name, b, c, q),
        ),
        ("- "@ + name + ": ToyKV "@ + b.ops.fixed@ + " / Fjall "@ + c.ops.fixed@
            + " OPS ("@).is_prefix_of(gate::fjall_line(name, b, c, q)),
{
    let a = "- "@ + name + ": "@ + b.ops.fixed@ + " -> "@ + c.ops.fixed@ + " OPS ("@;
    assert(gate::sync_line(name, b, c, q).take(a.len() as int) =~= a);
    let f = "- "@ + name + ": ToyKV "@ + b.ops.fixed@ + " / Fjall "@ + c.ops.fixed@ + " OPS ("@;
    assert(gate::fjall_line(name, b, c, q).take(f.len() as int) =~= f);
}

} // verus!
