//! What the reports of the perf gate say, line by line.
use crate::artifact;
use crate::figure;
use crate::figure::{Change, Figure};
use crate::gate;
use crate::gate::{GateConfig, GateFigures, GateInputs};
use crate::laws::change;
use crate::laws::sheet;
use crate::steadygate;
use crate::steadygate::{RowChanges, SteadyStateGateConfig, SteadyStateGateInputs};
use crate::table;
use crate::table::BenchCsv;
use crate::text;
use crate::workload::SteadyStateWorkload;
use vstd::prelude::*;

verus! {

/// A change with its sign, told of the current figure against the baseline.
pub open spec fn told(baseline: Figure, current: Figure, q: Change) -> Seq<char> {
    figure::change_signed(current.value, baseline.value, q)
}

/// A row is looked up by its name in the table that is asked, whatever that is called.
pub proof fn lemma_row_looked_up(csv: BenchCsv, name: Seq<char>, source: Seq<char>)
    ensures
        gate::absence(csv, name, source) is None <==> table::lookup(csv.rows@, name, source) is Ok,
        gate::absence(csv, name, source) matches Some(e) ==> table::lookup(csv.rows@, name, source)
            == Err::<int, Seq<char>>(e),
        table::lookup(csv.rows@, name, source) matches Ok(k) ==> gate::found(csv, name, source)
            == csv.rows@[k].row,
{
}

/// The sync section has a line per row, in the order of the rows: the baseline rate, the current rate
/// and the change between them.
pub proof fn lemma_sync_lines(cfg: GateConfig, i: GateInputs, f: GateFigures, n: nat, k: int)
    requires
        0 <= k < n <= cfg.rows@.len(),
    ensures
        ({
            let name = cfg.rows@[k]@;
            let b = gate::found(i.baseline_sync, name, "baseline sync"@);
            let c = gate::found(i.current_sync, name, "current sync"@);
            &&& gate::sync_lines(cfg, i, f, n).len() == n
            &&& gate::sync_lines(cfg, i, f, n)[k] == "- "@ + name + ": "@ + b.ops.fixed@ + " -> "@
                + c.ops.fixed@ + " OPS ("@ + told(b.ops, c.ops, f.sync@[k]) + "%)\n"@
        }),
    decreases n,
{
    if k < n - 1 {
        lemma_sync_lines(cfg, i, f, (n - 1) as nat, k);
    } else {
        lemma_sync_count(cfg, i, f, (n - 1) as nat);
    }
}

proof fn lemma_sync_count(cfg: GateConfig, i: GateInputs, f: GateFigures, n: nat)
    ensures
        gate::sync_lines(cfg, i, f, n).len() == n,
    decreases n,
{
    if n > 0 {
        lemma_sync_count(cfg, i, f, (n - 1) as nat);
    }
}

/// The ratio section has a line per ratio row, in their order: the baseline ratio, the current ratio
/// and the change between them.
pub proof fn lemma_ratio_lines(cfg: GateConfig, f: GateFigures, n: nat, k: int)
    requires
        0 <= k < n <= cfg.ratio_rows@.len(),
    ensures
        ({
            let r = f.ratios@[k];
            &&& gate::ratio_lines(cfg, f, n).len() == n
            &&& gate::ratio_lines(cfg, f, n)[k] == "- "@ + cfg.ratio_rows@[k]@ + ": "@
                + r.baseline_percent@ + "% -> "@ + r.current_percent@ + "% ("@
                + figure::change_signed(r.current, r.baseline, r.change) + "%)\n"@
        }),
    decreases n,
{
    if k < n - 1 {
        lemma_ratio_lines(cfg, f, (n - 1) as nat, k);
    } else {
        lemma_ratio_count(cfg, f, (n - 1) as nat);
    }
}

proof fn lemma_ratio_count(cfg: GateConfig, f: GateFigures, n: nat)
    ensures
        gate::ratio_lines(cfg, f, n).len() == n,
    decreases n,
{
    if n > 0 {
        lemma_ratio_count(cfg, f, (n - 1) as nat);
    }
}

/// The Fjall section has a line per row, in the order of the rows: the current rate, that of Fjall,
/// and how far the first is from the second.
pub proof fn lemma_fjall_lines(
    cfg: GateConfig,
    current: BenchCsv,
    fjall: BenchCsv,
    f: GateFigures,
    n: nat,
    k: int,
)
    requires
        0 <= k < n <= cfg.rows@.len(),
    ensures
        ({
            let name = cfg.rows@[k]@;
            let c = gate::found(current, name, "current sync"@);
            let o = gate::found(fjall, name, "Fjall sync"@);
            &&& gate::fjall_lines(cfg, current, fjall, f, n).len() == n
            &&& gate::fjall_lines(cfg, current, fjall, f, n)[k] == "- "@ + name + ": ToyKV "@
                + c.ops.fixed@ + " / Fjall "@ + o.ops.fixed@ + " OPS ("@ + told(
                o.ops,
                c.ops,
                f.fjall@[k],
            ) + "%)\n"@
        }),
    decreases n,
{
    if k < n - 1 {
        lemma_fjall_lines(cfg, current, fjall, f, (n - 1) as nat, k);
    } else {
        lemma_fjall_count(cfg, current, fjall, f, (n - 1) as nat);
    }
}

proof fn lemma_fjall_count(
    cfg: GateConfig,
    current: BenchCsv,
    fjall: BenchCsv,
    f: GateFigures,
    n: nat,
)
    ensures
        gate::fjall_lines(cfg, current, fjall, f, n).len() == n,
    decreases n,
{
    if n > 0 {
        lemma_fjall_count(cfg, current, fjall, f, (n - 1) as nat);
    }
}

/// The latency section has a line per row, in the order of the rows: the 95th percentile before and
/// now with its change, then the 99th.
pub proof fn lemma_latency_lines(
    cfg: GateConfig,
    baseline: BenchCsv,
    current: BenchCsv,
    f: GateFigures,
    n: nat,
    k: int,
)
    requires
        0 <= k < n <= cfg.rows@.len(),
    ensures
        ({
            let name = cfg.rows@[k]@;
            let b = gate::found(baseline, name, "baseline latency sync"@);
            let c = gate::found(current, name, "current latency sync"@);
            &&& gate::latency_lines(cfg, baseline, current, f, n).len() == n
            &&& gate::latency_lines(cfg, baseline, current, f, n)[k] == "- "@ + name + ": p95 "@
                + b.p95_ms.fixed@ + " -> "@ + c.p95_ms.fixed@ + " ms ("@ + told(
                b.p95_ms,
                c.p95_ms,
                f.latency_p95@[k],
            ) + "%), p99 "@ + b.p99_ms.fixed@ + " -> "@ + c.p99_ms.fixed@ + " ms ("@ + told(
                b.p99_ms,
                c.p99_ms,
                f.latency_p99@[k],
            ) + "%)\n"@
        }),
    decreases n,
{
    if k < n - 1 {
        lemma_latency_lines(cfg, baseline, current, f, (n - 1) as nat, k);
    } else {
        lemma_latency_count(cfg, baseline, current, f, (n - 1) as nat);
    }
}

proof fn lemma_latency_count(
    cfg: GateConfig,
    baseline: BenchCsv,
    current: BenchCsv,
    f: GateFigures,
    n: nat,
)
    ensures
        gate::latency_lines(cfg, baseline, current, f, n).len() == n,
    decreases n,
{
    if n > 0 {
        lemma_latency_count(cfg, baseline, current, f, (n - 1) as nat);
    }
}

/// The report has a section for sync rates, one for ratios, one against Fjall where Fjall is given,
/// and one for latencies, which says so where it is skipped.
pub proof fn lemma_report_sections(cfg: GateConfig, i: GateInputs, f: GateFigures)
    ensures
        ({
            let sync = "Sync OPS regression gate:\n"@ + figure::flat(
                gate::sync_lines(cfg, i, f, cfg.rows@.len()),
            );
            let ratios = "\nSync/no-sync ratio gate:\n"@ + figure::flat(
                gate::ratio_lines(cfg, f, cfg.ratio_rows@.len()),
            );
            let fjall = if i.fjall_sync is Some {
                "\nFjall-relative sync OPS gate:\n"@ + figure::flat(
                    gate::fjall_lines(cfg, i.current_sync, i.fjall_sync->0, f, cfg.rows@.len()),
                )
            } else {
                Seq::empty()
            };
            let latency = if i.baseline_latency_sync is Some && i.current_latency_sync is Some {
                "\nSingle-client p95/p99 latency gate:\n"@ + figure::flat(
                    gate::latency_lines(
                        cfg,
                        i.baseline_latency_sync->0,
                        i.current_latency_sync->0,
                        f,
                        cfg.rows@.len(),
                    ),
                )
            } else {
                "\nSingle-client p95/p99 latency gate: skipped; no latency CSVs supplied.\n"@
            };
            gate::gate_report(cfg, i, f) == "ToyKV sync perf gate\n\n"@ + sync + ratios + fjall
                + latency
        }),
{
    let head = "ToyKV sync perf gate\n\n"@;
    let a = "Sync OPS regression gate:\n"@;
    let b = figure::flat(gate::sync_lines(cfg, i, f, cfg.rows@.len()));
    let c = "\nSync/no-sync ratio gate:\n"@;
    let d = figure::flat(gate::ratio_lines(cfg, f, cfg.ratio_rows@.len()));
    assert(head + (a + b) =~= head + a + b);
    assert(head + a + b + (c + d) =~= head + a + b + c + d);
}

/// A row that fell too far is found by its name, with how far it fell and how far it may.
pub proof fn lemma_sync_found(cfg: GateConfig, i: GateInputs, f: GateFigures, n: nat, k: int)
    requires
        0 <= k < n <= cfg.rows@.len(),
        sheet::limits_ok(cfg),
        sheet::sync_fell(cfg, i, f, k),
    ensures
        ({
            let name = cfg.rows@[k]@;
            let b = gate::found(i.baseline_sync, name, "baseline sync"@).ops;
            let c = gate::found(i.current_sync, name, "current sync"@).ops;
            gate::sync_failures(cfg, i, f, n).contains(
                name + " sync OPS regressed "@ + figure::change_fixed(
                    c.value,
                    b.value,
                    f.sync@[k],
                ) + "%, below -"@ + cfg.max_sync_regression_pct.fixed@ + "%"@,
            )
        }),
    decreases n,
{
    let name = cfg.rows@[k]@;
    let b = gate::found(i.baseline_sync, name, "baseline sync"@).ops;
    let c = gate::found(i.current_sync, name, "current sync"@).ops;
    let said = name + " sync OPS regressed "@ + figure::change_fixed(c.value, b.value, f.sync@[k])
        + "%, below -"@ + cfg.max_sync_regression_pct.fixed@ + "%"@;
    let before = gate::sync_failures(cfg, i, f, (n - 1) as nat);
    let after = gate::sync_failures(cfg, i, f, n);
    if k < n - 1 {
        lemma_sync_found(cfg, i, f, (n - 1) as nat, k);
        let j = choose|j: int| 0 <= j < before.len() && before[j] == said;
        assert(after[j] == said);
    } else {
        change::lemma_change_judged(
            c.value,
            b.value,
            f.sync@[k].value,
            cfg.max_sync_regression_pct.value,
        );
        assert(after[before.len() as int] == said);
    }
}

/// A row that fell too far below Fjall is found by its name, with how far it is and how far it may
/// be.
pub proof fn lemma_fjall_found(
    cfg: GateConfig,
    i: GateInputs,
    fjall: BenchCsv,
    f: GateFigures,
    n: nat,
    k: int,
)
    requires
        0 <= k < n <= cfg.rows@.len(),
        sheet::limits_ok(cfg),
        sheet::below_fjall(cfg, i, fjall, f, k),
    ensures
        ({
            let name = cfg.rows@[k]@;
            let o = gate::found(fjall, name, "Fjall sync"@).ops;
            let c = gate::found(i.current_sync, name, "current sync"@).ops;
            gate::fjall_failures(cfg, i.current_sync, fjall, f, n).contains(
                name + " current sync OPS is below Fjall by "@ + figure::change_fixed(
                    c.value,
                    o.value,
                    f.fjall@[k],
                ) + "%, below -"@ + cfg.max_sync_regression_pct.fixed@ + "%"@,
            )
        }),
    decreases n,
{
    let name = cfg.rows@[k]@;
    let o = gate::found(fjall, name, "Fjall sync"@).ops;
    let c = gate::found(i.current_sync, name, "current sync"@).ops;
    let said = name + " current sync OPS is below Fjall by "@ + figure::change_fixed(
        c.value,
        o.value,
        f.fjall@[k],
    ) + "%, below -"@ + cfg.max_sync_regression_pct.fixed@ + "%"@;
    let before = gate::fjall_failures(cfg, i.current_sync, fjall, f, (n - 1) as nat);
    let after = gate::fjall_failures(cfg, i.current_sync, fjall, f, n);
    if k < n - 1 {
        lemma_fjall_found(cfg, i, fjall, f, (n - 1) as nat, k);
        let j = choose|j: int| 0 <= j < before.len() && before[j] == said;
        assert(after[j] == said);
    } else {
        change::lemma_change_judged(
            c.value,
            o.value,
            f.fjall@[k].value,
            cfg.max_sync_regression_pct.value,
        );
        assert(after[before.len() as int] == said);
    }
}

/// Too few improved ratios are found once, with how many there are and how many there must be.
pub proof fn lemma_ratios_found(cfg: GateConfig, f: GateFigures)
    ensures
        ({
            let improved = sheet::improved_rows(f, cfg.ratio_rows@.len()).len();
            gate::ratio_failures(cfg, f) == if improved < cfg.min_ratio_improvements {
                seq![
                    "only "@ + text::decimal(improved)
                        + " sync/no-sync ratio rows improved; need "@ + text::decimal(
                        cfg.min_ratio_improvements as nat,
                    ),
                ]
            } else {
                Seq::empty()
            }
        }),
{
    sheet::lemma_improvements_counted(f, cfg.ratio_rows@.len());
}

/// A row belongs to the steady-state gate exactly where it has the name of one of its workloads, the
/// name of the suite, or the suite as its tag.
pub proof fn lemma_steady_state_names(row: Seq<char>)
    ensures
        gate::names_steady_state(row) <==> {
            ||| exists|w: SteadyStateWorkload| row == #[trigger] w.name_text()
            ||| row == "steady-state"@
            ||| "steady-state::"@.is_prefix_of(row)
            ||| "[T]steady-state::"@.is_prefix_of(row)
        },
{
    assert(SteadyStateWorkload::BalancedZipfian.name_text() == "balanced_zipfian"@);
    assert(SteadyStateWorkload::ReadHeavyZipfian.name_text() == "read_heavy_zipfian"@);
    assert(SteadyStateWorkload::UpdateHeavyZipfian.name_text() == "update_heavy_zipfian"@);
    assert(SteadyStateWorkload::PointReadZipfian.name_text() == "point_read_zipfian"@);
    assert(SteadyStateWorkload::PointReadUniform.name_text() == "point_read_uniform"@);
    assert(SteadyStateWorkload::PointReadMissingInRange.name_text()
        == "point_read_missing_in_range"@);
    assert(SteadyStateWorkload::RangeScanUniform.name_text() == "range_scan_uniform"@);
    assert(SteadyStateWorkload::SustainedIngest.name_text() == "sustained_ingest"@);
    assert(SteadyStateWorkload::Idle.name_text() == "idle"@);
}

/// A steady-state row that was asked of the CSV gate is named, the first of them.
pub proof fn lemma_misplaced_row(rows: Seq<Seq<char>>, n: nat)
    requires
        n <= rows.len(),
    ensures
        match gate::first_misplaced(rows, n) {
            None => forall|i: int| 0 <= i < n ==> !gate::names_steady_state(#[trigger] rows[i]),
            Some(row) => exists|k: int|
                {
                    &&& 0 <= k < n
                    &&& (#[trigger] rows[k]) == row
                    &&& gate::names_steady_state(row)
                    &&& forall|i: int|
                        0 <= i < k ==> !gate::names_steady_state(#[trigger] rows[i])
                },
        },
    decreases n,
{
    if n > 0 {
        lemma_misplaced_row(rows, (n - 1) as nat);
    }
}

/// The line of a row that was measured in both artifacts: rate, 95th and 99th percentile, each of the
/// baseline and then of the current artifact, by the names of their databases, with the change.
pub proof fn lemma_measured_line(
    name: Seq<char>,
    b: artifact::SteadyStateRow,
    c: artifact::SteadyStateRow,
    q: RowChanges,
    cfg: SteadyStateGateConfig,
)
    requires
        name != "idle"@,
        b.status@ == "completed"@,
        c.status@ == "completed"@,
        b.throughput is Some && b.latency is Some && c.throughput is Some && c.latency is Some,
    ensures
        ({
            let base = if b.database is Text {
                b.database->text@
            } else {
                "unknown"@
            };
            let curr = if c.database is Text {
                c.database->text@
            } else {
                "unknown"@
            };
            let pair = |what: Seq<char>, x: Figure, y: Figure|
                base + what + x.fixed@ + " -> "@ + curr + what + y.fixed@;
            let (x, y) = (b.throughput->0.ops_per_sec, c.throughput->0.ops_per_sec);
            let (l, m) = (b.latency->0, c.latency->0);
            steadygate::row_line(name, b, c, q, cfg) == "- "@ + name + ": "@ + pair(" OPS "@, x, y)
                + " ("@ + told(x, y, q.ops) + "%), "@ + pair(" p95 "@, l.p95_ms, m.p95_ms)
                + " ms ("@ + told(l.p95_ms, m.p95_ms, q.p95) + "%), "@ + pair(
                " p99 "@,
                l.p99_ms,
                m.p99_ms,
            ) + " ms ("@ + told(l.p99_ms, m.p99_ms, q.p99) + "%)\n"@
        }),
{
}

/// A report has a line per row, in the order of the rows, of the rows of that name.
pub proof fn lemma_report_lines(
    cfg: SteadyStateGateConfig,
    i: SteadyStateGateInputs,
    changes: Seq<RowChanges>,
    n: nat,
    k: int,
)
    requires
        0 <= k < n <= cfg.rows@.len(),
    ensures
        ({
            let name = cfg.rows@[k]@;
            &&& steadygate::report_lines(cfg, i, changes, n).len() == n
            &&& steadygate::report_lines(cfg, i, changes, n)[k] == steadygate::row_line(
                name,
                steadygate::row_of(i.baseline, name),
                steadygate::row_of(i.current, name),
                changes[k],
                cfg,
            )
        }),
    decreases n,
{
    if k < n - 1 {
        lemma_report_lines(cfg, i, changes, (n - 1) as nat, k);
    } else {
        lemma_report_count(cfg, i, changes, (n - 1) as nat);
    }
}

proof fn lemma_report_count(
    cfg: SteadyStateGateConfig,
    i: SteadyStateGateInputs,
    changes: Seq<RowChanges>,
    n: nat,
)
    ensures
        steadygate::report_lines(cfg, i, changes, n).len() == n,
    decreases n,
{
    if n > 0 {
        lemma_report_count(cfg, i, changes, (n - 1) as nat);
    }
}

/// A latency that rose too far is found by the name of its row and its own percentile, with how far it
/// rose and how far it may.
pub proof fn lemma_latency_found(
    cfg: GateConfig,
    baseline: BenchCsv,
    current: BenchCsv,
    f: GateFigures,
    n: nat,
    k: int,
)
    requires
        0 <= k < n <= cfg.rows@.len(),
        sheet::limits_ok(cfg),
    ensures
        ({
            let name = cfg.rows@[k]@;
            let b = gate::found(baseline, name, "baseline latency sync"@);
            let c = gate::found(current, name, "current latency sync"@);
            let limit = cfg.max_latency_regression_pct;
            let list = gate::latency_failures(cfg, baseline, current, f, n);
            &&& change::rose(
                c.p95_ms.value,
                b.p95_ms.value,
                f.latency_p95@[k].value,
                limit.value,
            ) ==> list.contains(
                name + " p95 regressed "@ + figure::change_fixed(
                    c.p95_ms.value,
                    b.p95_ms.value,
                    f.latency_p95@[k],
                ) + "%, above "@ + limit.fixed@ + "%"@,
            )
            &&& change::rose(
                c.p99_ms.value,
                b.p99_ms.value,
                f.latency_p99@[k].value,
                limit.value,
            ) ==> list.contains(
                name + " p99 regressed "@ + figure::change_fixed(
                    c.p99_ms.value,
                    b.p99_ms.value,
                    f.latency_p99@[k],
                ) + "%, above "@ + limit.fixed@ + "%"@,
            )
        }),
    decreases n,
{
    let name = cfg.rows@[k]@;
    let b = gate::found(baseline, name, "baseline latency sync"@);
    let c = gate::found(current, name, "current latency sync"@);
    let limit = cfg.max_latency_regression_pct;
    let p95 = name + " p95 regressed "@ + figure::change_fixed(
        c.p95_ms.value,
        b.p95_ms.value,
        f.latency_p95@[k],
    ) + "%, above "@ + limit.fixed@ + "%"@;
    let p99 = name + " p99 regressed "@ + figure::change_fixed(
        c.p99_ms.value,
        b.p99_ms.value,
        f.latency_p99@[k],
    ) + "%, above "@ + limit.fixed@ + "%"@;
    let rose95 = change::rose(c.p95_ms.value, b.p95_ms.value, f.latency_p95@[k].value, limit.value);
    let rose99 = change::rose(c.p99_ms.value, b.p99_ms.value, f.latency_p99@[k].value, limit.value);
    let before = gate::latency_failures(cfg, baseline, current, f, (n - 1) as nat);
    let after = gate::latency_failures(cfg, baseline, current, f, n);
    if k < n - 1 {
        lemma_latency_found(cfg, baseline, current, f, (n - 1) as nat, k);
        if rose95 {
            let j = choose|j: int| 0 <= j < before.len() && before[j] == p95;
            assert(after[j] == p95);
        }
        if rose99 {
            let j = choose|j: int| 0 <= j < before.len() && before[j] == p99;
            assert(after[j] == p99);
        }
    } else {
        change::lemma_change_judged(
            c.p95_ms.value,
            b.p95_ms.value,
            f.latency_p95@[k].value,
            limit.value,
        );
        change::lemma_change_judged(
            c.p99_ms.value,
            b.p99_ms.value,
            f.latency_p99@[k].value,
            limit.value,
        );
        if rose95 {
            assert(after[before.len() as int] == p95);
        }
        if rose99 {
            assert(after[(before.len() + change::one_if(rose95)) as int] == p99);
        }
    }
}

/// Why the CSV gate cannot be asked for, in this order: a steady-state row among its rows, then among
/// its ratio rows, a negative limit, more improvements than ratio rows.
pub proof fn lemma_gate_refused(cfg: GateConfig)
    ensures
        ({
            let rows = gate::first_misplaced(text::texts(cfg.rows@), cfg.rows@.len());
            let ratios = gate::first_misplaced(text::texts(cfg.ratio_rows@), cfg.ratio_rows@.len());
            let zero = crate::binary64::Float64::zero_spec();
            let belongs = |row: Seq<char>|
                "steady-state row "@ + figure::quoted_text(row)
                    + " requires a steady-state JSON or sidecar gate, not the legacy CSV-only perf-gate"@;
            gate::config_error(cfg) == if rows is Some {
                Some(belongs(rows->0))
            } else if ratios is Some {
                Some(belongs(ratios->0))
            } else if cfg.max_sync_regression_pct.value.less(zero) {
                Some("--max-sync-regression-pct cannot be negative"@)
            } else if cfg.max_latency_regression_pct.value.less(zero) {
                Some("--max-latency-regression-pct cannot be negative"@)
            } else if cfg.ratio_rows@.len() < cfg.min_ratio_improvements {
                Some(
                    "--min-ratio-improvements ("@ + text::decimal(cfg.min_ratio_improvements as nat)
                        + ") cannot be greater than the number of ratio rows ("@ + text::decimal(
                        cfg.ratio_rows@.len(),
                    ) + ")"@,
                )
            } else {
                None
            }
        }),
{
}

/// Why a name stands for no row: none has it, or more than one goes by it, and which table is asked.
pub proof fn lemma_lookup_refused(csv: BenchCsv, name: Seq<char>, source: Seq<char>)
    ensures
        table::lookup(csv.rows@, name, source) matches Err(e) ==> {
            let none = forall|j: int|
                0 <= j < csv.rows@.len() ==> table::alias((#[trigger] csv.rows@[j]).label@) != name;
            &&& none ==> e == "missing row "@ + figure::quoted_text(name) + " in "@ + source
                + " CSV"@
            &&& !none ==> e == "ambiguous row "@ + figure::quoted_text(name) + " in "@ + source
                + " CSV: multiple matches found"@
        },
{
    lemma_no_alias(csv.rows@, name, csv.rows@.len());
}

proof fn lemma_no_alias(rows: Seq<table::NamedRow>, name: Seq<char>, n: nat)
    requires
        n <= rows.len(),
    ensures
        table::alias_count(rows, name, n) == 0 <==> forall|j: int|
            0 <= j < n ==> table::alias((#[trigger] rows[j]).label@) != name,
    decreases n,
{
    if n > 0 {
        lemma_no_alias(rows, name, (n - 1) as nat);
    }
}

/// The error of a table that lacks the row.
pub open spec fn lacks(csv: BenchCsv, name: Seq<char>, source: Seq<char>) -> Option<Seq<char>> {
    match table::lookup(csv.rows@, name, source) {
        Ok(_) => None,
        Err(e) => Some(e),
    }
}

/// Two tables are refused for the first row that one of them lacks, the first table before the second.
pub proof fn lemma_pair_refused(
    a: BenchCsv,
    a_source: Seq<char>,
    b: BenchCsv,
    b_source: Seq<char>,
    rows: Seq<Seq<char>>,
    n: nat,
)
    requires
        n <= rows.len(),
    ensures
        gate::pairs_error(a, a_source, b, b_source, rows, n) matches Some(e) ==> exists|k: int|
            {
                &&& 0 <= k < n
                &&& forall|j: int|
                    0 <= j < k ==> lacks(a, #[trigger] rows[j], a_source) is None && lacks(
                        b,
                        rows[j],
                        b_source,
                    ) is None
                &&& if lacks(a, #[trigger] rows[k], a_source) is Some {
                    lacks(a, rows[k], a_source) == Some(e)
                } else {
                    lacks(b, rows[k], b_source) == Some(e)
                }
            },
        gate::pairs_error(a, a_source, b, b_source, rows, n) is None ==> forall|j: int|
            0 <= j < n ==> lacks(a, #[trigger] rows[j], a_source) is None && lacks(
                b,
                rows[j],
                b_source,
            ) is None,
    decreases n,
{
    if n > 0 {
        let m = (n - 1) as nat;
        lemma_pair_refused(a, a_source, b, b_source, rows, m);
        if gate::pairs_error(a, a_source, b, b_source, rows, m) is None {
            assert(lacks(a, rows[m as int], a_source) == gate::absence(
                a,
                rows[m as int],
                a_source,
            ));
            assert(lacks(b, rows[m as int], b_source) == gate::absence(
                b,
                rows[m as int],
                b_source,
            ));
        }
    }
}

/// A ratio row is refused for the first table that lacks it, baseline before current and sync before
/// no-sync, then for the first no-sync rate that is not positive.
pub proof fn lemma_ratio_refused(i: GateInputs, row: Seq<char>)
    ensures
        ({
            let zero = crate::binary64::Float64::zero_spec();
            let b = gate::found(i.baseline_nosync, row, "baseline no-sync"@).ops;
            let c = gate::found(i.current_nosync, row, "current no-sync"@).ops;
            gate::ratio_row_error(i, row) == if lacks(i.baseline_sync, row, "baseline sync"@)
                is Some {
                lacks(i.baseline_sync, row, "baseline sync"@)
            } else if lacks(i.current_sync, row, "current sync"@) is Some {
                lacks(i.current_sync, row, "current sync"@)
            } else if lacks(i.baseline_nosync, row, "baseline no-sync"@) is Some {
                lacks(i.baseline_nosync, row, "baseline no-sync"@)
            } else if lacks(i.current_nosync, row, "current no-sync"@) is Some {
                lacks(i.current_nosync, row, "current no-sync"@)
            } else if b.value.less_or_equal(zero) {
                Some("cannot compute ratio against non-positive no-sync OPS "@ + b.plain@)
            } else if c.value.less_or_equal(zero) {
                Some("cannot compute ratio against non-positive no-sync OPS "@ + c.plain@)
            } else {
                None
            }
        }),
{
}

/// Why the CSV gate cannot be judged: as it cannot be asked for, then for what the sync section lacks,
/// the ratio section, the Fjall section and the latency section, each where it is asked for.
pub proof fn lemma_gate_refused_in_order(cfg: GateConfig, i: GateInputs)
    ensures
        ({
            let rows = text::texts(cfg.rows@);
            let n = cfg.rows@.len();
            let sync = gate::pairs_error(
                i.baseline_sync,
                "baseline sync"@,
                i.current_sync,
                "current sync"@,
                rows,
                n,
            );
            let ratios = gate::ratio_rows_error(
                i,
                text::texts(cfg.ratio_rows@),
                cfg.ratio_rows@.len(),
            );
            let fjall = if i.fjall_sync is Some {
                gate::pairs_error(
                    i.current_sync,
                    "current sync"@,
                    i.fjall_sync->0,
                    "Fjall sync"@,
                    rows,
                    n,
                )
            } else {
                None
            };
            let latency = if i.baseline_latency_sync is Some && i.current_latency_sync is Some {
                gate::pairs_error(
                    i.baseline_latency_sync->0,
                    "baseline latency sync"@,
                    i.current_latency_sync->0,
                    "current latency sync"@,
                    rows,
                    n,
                )
            } else if i.baseline_latency_sync is None && i.current_latency_sync is None {
                None
            } else {
                Some(
                    "latency gate requires both --baseline-latency-sync and --current-latency-sync"@,
                )
            };
            gate::gate_error(cfg, i) == if gate::config_error(cfg) is Some {
                gate::config_error(cfg)
            } else if sync is Some {
                sync
            } else if ratios is Some {
                ratios
            } else if fjall is Some {
                fjall
            } else {
                latency
            }
        }),
{
}

} // verus!
