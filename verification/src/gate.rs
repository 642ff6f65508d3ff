//! The perf gate over CSV tables: sync throughput, sync/no-sync ratio and latency against a
//! baseline.
use crate::binary64::Float64;
use crate::failure::Failure;
use crate::figure;
use crate::figure::{add_note, change, conclude, quoted, Change, Evaluation, Figure};
use crate::table;
use crate::table::{required_row, BenchCsv, BenchRow};
use crate::text;
use crate::text::{cat2, cat3, cat4, cat5, decimal_text, same_text, starts_with};
use vstd::prelude::*;

verus! {

/// What the perf gate asks for.
pub struct GateConfig {
    pub rows: Vec<String>,
    pub ratio_rows: Vec<String>,
    pub max_sync_regression_pct: Figure,
    pub min_ratio_improvements: usize,
    pub max_latency_regression_pct: Figure,
}

/// The tables that the perf gate looks at.
pub struct GateInputs {
    pub baseline_sync: BenchCsv,
    pub current_sync: BenchCsv,
    pub baseline_nosync: BenchCsv,
    pub current_nosync: BenchCsv,
    pub fjall_sync: Option<BenchCsv>,
    pub baseline_latency_sync: Option<BenchCsv>,
    pub current_latency_sync: Option<BenchCsv>,
}

/// The sync/no-sync ratios of a row, computed by the caller, each with its text in percent.
pub struct RatioFigures {
    pub baseline: Float64,
    pub baseline_percent: String,
    pub current: Float64,
    pub current_percent: String,
    pub change: Change,
}

/// The changes that the perf gate judges, computed by the caller: one per row, in the order of the
/// rows.
pub struct GateFigures {
    pub sync: Vec<Change>,
    pub ratios: Vec<RatioFigures>,
    pub fjall: Vec<Change>,
    pub latency_p95: Vec<Change>,
    pub latency_p99: Vec<Change>,
}

/// Whether a name belongs to the steady-state rows, which a table alone cannot judge.
pub open spec fn names_steady_state(row: Seq<char>) -> bool {
    ||| row == "steady-state"@
    ||| "[T]steady-state::"@.is_prefix_of(row)
    ||| "steady-state::"@.is_prefix_of(row)
    ||| row == "balanced_zipfian"@
    ||| row == "read_heavy_zipfian"@
    ||| row == "update_heavy_zipfian"@
    ||| row == "point_read_zipfian"@
    ||| row == "point_read_uniform"@
    ||| row == "point_read_missing_in_range"@
    ||| row == "range_scan_uniform"@
    ||| row == "sustained_ingest"@
    ||| row == "idle"@
}

/// Whether a name belongs to the steady-state rows.
pub fn is_steady_state_row(row: &str) -> (r: bool)
    ensures
        r == names_steady_state(row@),
{
    same_text(row, "steady-state") || starts_with(row, "[T]steady-state::") || starts_with(
        row,
        "steady-state::",
    ) || same_text(row, "balanced_zipfian") || same_text(row, "read_heavy_zipfian") || same_text(
        row,
        "update_heavy_zipfian",
    ) || same_text(row, "point_read_zipfian") || same_text(row, "point_read_uniform") || same_text(
        row,
        "point_read_missing_in_range",
    ) || same_text(row, "range_scan_uniform") || same_text(row, "sustained_ingest") || same_text(
        row,
        "idle",
    )
}

pub open spec fn misplaced_row(row: Seq<char>) -> Seq<char> {
    "steady-state row "@ + figure::quoted_text(row)
        + " requires a steady-state JSON or sidecar gate, not the legacy CSV-only perf-gate"@
}

/// The first of the first `n` rows that is a steady-state row.
pub open spec fn first_misplaced(rows: Seq<Seq<char>>, n: nat) -> Option<Seq<char>>
    decreases n,
{
    if n == 0 {
        None
    } else {
        match first_misplaced(rows, (n - 1) as nat) {
            Some(row) => Some(row),
            None => if names_steady_state(rows[n - 1]) {
                Some(rows[n - 1])
            } else {
                None
            },
        }
    }
}

fn find_misplaced(rows: &Vec<String>) -> (r: Option<String>)
    ensures
        match (r, first_misplaced(text::texts(rows@), rows@.len())) {
            (Some(a), Some(b)) => a@ == b,
            (None, None) => true,
            _ => false,
        },
{
    broadcast use text::lemma_texts_index;

    let mut found: Option<String> = None;
    let mut i: usize = 0;
    while i < rows.len()
        invariant
            i <= rows@.len(),
            match (found, first_misplaced(text::texts(rows@), i as nat)) {
                (Some(a), Some(b)) => a@ == b,
                (None, None) => true,
                _ => false,
            },
        decreases rows@.len() - i,
    {
        assert(text::texts(rows@)[i as int] == rows@[i as int]@);
        if found.is_none() && is_steady_state_row(rows[i].as_str()) {
            found = Some(rows[i].clone());
        }
        i = i + 1;
    }
    found
}

pub open spec fn too_many_improvements(wanted: usize, rows: nat) -> Seq<char> {
    "--min-ratio-improvements ("@ + text::decimal(wanted as nat)
        + ") cannot be greater than the number of ratio rows ("@ + text::decimal(rows) + ")"@
}

/// Why the perf gate cannot be asked for, if it cannot.
pub open spec fn config_error(cfg: GateConfig) -> Option<Seq<char>> {
    match first_misplaced(text::texts(cfg.rows@), cfg.rows@.len()) {
        Some(row) => Some(misplaced_row(row)),
        None => match first_misplaced(text::texts(cfg.ratio_rows@), cfg.ratio_rows@.len()) {
            Some(row) => Some(misplaced_row(row)),
            None => if cfg.max_sync_regression_pct.value.less(Float64::zero_spec()) {
                Some("--max-sync-regression-pct cannot be negative"@)
            } else if cfg.max_latency_regression_pct.value.less(Float64::zero_spec()) {
                Some("--max-latency-regression-pct cannot be negative"@)
            } else if cfg.min_ratio_improvements > cfg.ratio_rows@.len() {
                Some(too_many_improvements(cfg.min_ratio_improvements, cfg.ratio_rows@.len()))
            } else {
                None
            },
        },
    }
}

/// Refuses a gate that cannot be asked for.
pub fn validate_config(cfg: &GateConfig) -> (r: Result<(), Failure>)
    ensures
        match (r, config_error(*cfg)) {
            (Ok(()), None) => true,
            (Err(e), Some(t)) => e@ == t,
            _ => false,
        },
{
    let misplaced: Option<String> = match find_misplaced(&cfg.rows) {
        Some(row) => Some(row),
        None => find_misplaced(&cfg.ratio_rows),
    };
    if let Some(row) = misplaced {
        return Err(
            Failure::new(
                cat3(
                    "steady-state row ",
                    quoted(row.as_str()).as_str(),
                    " requires a steady-state JSON or sidecar gate, not the legacy CSV-only perf-gate",
                ),
            ),
        );
    }
    if cfg.max_sync_regression_pct.value.lt(Float64::zero()) {
        return Err(
            Failure::new("--max-sync-regression-pct cannot be negative".to_owned()),
        );
    }
    if cfg.max_latency_regression_pct.value.lt(Float64::zero()) {
        return Err(
            Failure::new("--max-latency-regression-pct cannot be negative".to_owned()),
        );
    }
    if cfg.min_ratio_improvements > cfg.ratio_rows.len() {
        return Err(
            Failure::new(
                cat5(
                    "--min-ratio-improvements (",
                    decimal_text(cfg.min_ratio_improvements as u128).as_str(),
                    ") cannot be greater than the number of ratio rows (",
                    decimal_text(cfg.ratio_rows.len() as u128).as_str(),
                    ")",
                ),
            ),
        );
    }
    Ok(())
}

pub open spec fn no_ratio(denominator: Figure) -> Seq<char> {
    "cannot compute ratio against non-positive no-sync OPS "@ + denominator.plain@
}

/// A ratio needs a positive denominator; `quotient` is the numerator over it.
pub fn ratio(denominator: &Figure, quotient: Float64) -> (r: Result<Float64, Failure>)
    ensures
        match r {
            Ok(q) => q == quotient && !denominator.value.less_or_equal(Float64::zero_spec()),
            Err(e) => denominator.value.less_or_equal(Float64::zero_spec()) && e@ == no_ratio(
                *denominator,
            ),
        },
{
    if denominator.value.le(Float64::zero()) {
        return Err(
            Failure::new(
                cat2(
                    "cannot compute ratio against non-positive no-sync OPS ",
                    denominator.plain.as_str(),
                ),
            ),
        );
    }
    Ok(quotient)
}

/// The row of a table that a name stands for.
pub open spec fn found(csv: BenchCsv, row: Seq<char>, source: Seq<char>) -> BenchRow {
    csv.rows@[table::lookup(csv.rows@, row, source)->Ok_0].row
}

/// Why a table has no row of the name, if it has none.
pub open spec fn absence(csv: BenchCsv, row: Seq<char>, source: Seq<char>) -> Option<Seq<char>> {
    match table::lookup(csv.rows@, row, source) {
        Ok(_) => None,
        Err(e) => Some(e),
    }
}

pub open spec fn either(first: Option<Seq<char>>, second: Option<Seq<char>>) -> Option<Seq<char>> {
    match first {
        Some(e) => Some(e),
        None => second,
    }
}

/// The first of the first `n` rows that one of two tables lacks.
pub open spec fn pairs_error(
    a: BenchCsv,
    a_source: Seq<char>,
    b: BenchCsv,
    b_source: Seq<char>,
    rows: Seq<Seq<char>>,
    n: nat,
) -> Option<Seq<char>>
    decreases n,
{
    if n == 0 {
        None
    } else {
        either(
            pairs_error(a, a_source, b, b_source, rows, (n - 1) as nat),
            either(absence(a, rows[n - 1], a_source), absence(b, rows[n - 1], b_source)),
        )
    }
}

proof fn lemma_pairs_error(
    a: BenchCsv,
    a_source: Seq<char>,
    b: BenchCsv,
    b_source: Seq<char>,
    rows: Seq<Seq<char>>,
    k: nat,
    n: nat,
)
    requires
        k <= n,
        pairs_error(a, a_source, b, b_source, rows, k) is Some,
    ensures
        pairs_error(a, a_source, b, b_source, rows, n) == pairs_error(
            a,
            a_source,
            b,
            b_source,
            rows,
            k,
        ),
    decreases n,
{
    if k < n {
        lemma_pairs_error(a, a_source, b, b_source, rows, k, (n - 1) as nat);
    }
}

/// Whether a change is a regression of more than the given percentage.
pub open spec fn regressed(current: Figure, baseline: Figure, quotient: Change, limit: Figure) -> bool {
    figure::percent_change_spec(current.value, baseline.value, quotient.value).less(
        limit.value.negated(),
    )
}

/// Whether a change is an increase of more than the given percentage.
pub open spec fn increased(current: Figure, baseline: Figure, quotient: Change, limit: Figure) -> bool {
    limit.value.less(
        figure::percent_change_spec(current.value, baseline.value, quotient.value),
    )
}

pub open spec fn fixed(current: Figure, baseline: Figure, quotient: Change) -> Seq<char> {
    figure::change_fixed(current.value, baseline.value, quotient)
}

pub open spec fn signed(current: Figure, baseline: Figure, quotient: Change) -> Seq<char> {
    figure::change_signed(current.value, baseline.value, quotient)
}

pub open spec fn sync_line(row: Seq<char>, b: BenchRow, c: BenchRow, q: Change) -> Seq<char> {
    "- "@ + row + ": "@ + b.ops.fixed@ + " -> "@ + c.ops.fixed@ + " OPS ("@ + signed(
        c.ops,
        b.ops,
        q,
    ) + "%)\n"@
}

pub open spec fn sync_failure(
    row: Seq<char>,
    b: BenchRow,
    c: BenchRow,
    q: Change,
    limit: Figure,
) -> Seq<char> {
    row + " sync OPS regressed "@ + fixed(c.ops, b.ops, q) + "%, below -"@ + limit.fixed@ + "%"@
}

/// The lines of the first `n` rows of the sync gate.
pub open spec fn sync_lines(cfg: GateConfig, i: GateInputs, f: GateFigures, n: nat) -> Seq<Seq<char>>
    decreases n,
{
    if n == 0 {
        Seq::empty()
    } else {
        let row = cfg.rows@[n - 1]@;
        sync_lines(cfg, i, f, (n - 1) as nat).push(
            sync_line(
                row,
                found(i.baseline_sync, row, "baseline sync"@),
                found(i.current_sync, row, "current sync"@),
                f.sync@[n - 1],
            ),
        )
    }
}

/// The failures of the first `n` rows of the sync gate.
pub open spec fn sync_failures(cfg: GateConfig, i: GateInputs, f: GateFigures, n: nat) -> Seq<
    Seq<char>,
>
    decreases n,
{
    if n == 0 {
        Seq::empty()
    } else {
        let row = cfg.rows@[n - 1]@;
        let b = found(i.baseline_sync, row, "baseline sync"@);
        let c = found(i.current_sync, row, "current sync"@);
        let q = f.sync@[n - 1];
        sync_failures(cfg, i, f, (n - 1) as nat) + figure::note(
            regressed(c.ops, b.ops, q, cfg.max_sync_regression_pct),
            sync_failure(row, b, c, q, cfg.max_sync_regression_pct),
        )
    }
}

proof fn lemma_flat_push(lines: Seq<Seq<char>>, line: Seq<char>)
    ensures
        figure::flat(lines.push(line)) == figure::flat(lines) + line,
{
    assert(lines.push(line).drop_last() =~= lines);
}

fn sync_section(
    cfg: &GateConfig,
    inputs: &GateInputs,
    figures: &GateFigures,
    out: &mut String,
    failures: &mut Vec<String>,
) -> (r: Result<(), Failure>)
    requires
        figures.sync@.len() == cfg.rows@.len(),
    ensures
        match (
            r,
            pairs_error(
                inputs.baseline_sync,
                "baseline sync"@,
                inputs.current_sync,
                "current sync"@,
                text::texts(cfg.rows@),
                cfg.rows@.len(),
            ),
        ) {
            (Ok(()), None) => {
                &&& final(out)@ == old(out)@ + figure::flat(
                    sync_lines(*cfg, *inputs, *figures, cfg.rows@.len()),
                )
                &&& text::texts(final(failures)@) == text::texts(old(failures)@) + sync_failures(
                    *cfg,
                    *inputs,
                    *figures,
                    cfg.rows@.len(),
                )
            },
            (Err(e), Some(t)) => e@ == t,
            _ => false,
        },
{
    let ghost rows = text::texts(cfg.rows@);
    let ghost out0 = out@;
    let ghost fail0 = text::texts(failures@);
    let mut i: usize = 0;
    assert(out0 + figure::flat(Seq::empty()) =~= out0);
    assert(fail0 + Seq::<Seq<char>>::empty() =~= fail0);
    #[verifier::loop_isolation(false)]
    while i < cfg.rows.len()
        invariant
            i <= cfg.rows@.len(),
            pairs_error(
                inputs.baseline_sync,
                "baseline sync"@,
                inputs.current_sync,
                "current sync"@,
                rows,
                i as nat,
            ) is None,
            out@ == out0 + figure::flat(sync_lines(*cfg, *inputs, *figures, i as nat)),
            text::texts(failures@) == fail0 + sync_failures(*cfg, *inputs, *figures, i as nat),
        decreases cfg.rows@.len() - i,
    {
        let row: &str = cfg.rows[i].as_str();
        assert(rows[i as int] == row@);
        proof {
            if pairs_error(
                inputs.baseline_sync,
                "baseline sync"@,
                inputs.current_sync,
                "current sync"@,
                rows,
                (i + 1) as nat,
            ) is Some {
                lemma_pairs_error(
                    inputs.baseline_sync,
                    "baseline sync"@,
                    inputs.current_sync,
                    "current sync"@,
                    rows,
                    (i + 1) as nat,
                    rows.len(),
                );
            }
        }
        let baseline: &BenchRow = match required_row(
            &inputs.baseline_sync,
            row,
            "baseline sync",
        ) {
            Ok(b) => b,
            Err(e) => {
                return Err(e);
            },
        };
        let current: &BenchRow = match required_row(&inputs.current_sync, row, "current sync") {
            Ok(c) => c,
            Err(e) => {
                return Err(e);
            },
        };
        let delta: Change = change(current.ops.value, baseline.ops.value, &figures.sync[i]);
        let mut line: String = cat5(
            "- ",
            row,
            ": ",
            baseline.ops.fixed.as_str(),
            " -> ",
        );
        line.append(current.ops.fixed.as_str());
        line.append(" OPS (");
        line.append(delta.signed.as_str());
        line.append("%)\n");
        let ghost lines = sync_lines(*cfg, *inputs, *figures, i as nat);
        proof {
            lemma_flat_push(lines, line@);
            assert(out0 + figure::flat(lines) + line@ =~= out0 + (figure::flat(lines) + line@));
        }
        out.append(line.as_str());
        let message: String = cat5(
            row,
            " sync OPS regressed ",
            delta.fixed.as_str(),
            "%, below -",
            cfg.max_sync_regression_pct.fixed.as_str(),
        ).concat("%");
        let ghost before = sync_failures(*cfg, *inputs, *figures, i as nat);
        add_note(
            failures,
            delta.value.lt(cfg.max_sync_regression_pct.value.neg()),
            message,
        );
        i = i + 1;
        assert(text::texts(failures@) =~= fail0 + sync_failures(
            *cfg,
            *inputs,
            *figures,
            i as nat,
        ));
    }
    Ok(())
}

/// Why there is no ratio against the given rate, if there is none.
pub open spec fn ratio_error(denominator: Figure) -> Option<Seq<char>> {
    if denominator.value.less_or_equal(Float64::zero_spec()) {
        Some(no_ratio(denominator))
    } else {
        None
    }
}

/// Why a row has no ratios, if it has none.
pub open spec fn ratio_row_error(i: GateInputs, row: Seq<char>) -> Option<Seq<char>> {
    either(
        absence(i.baseline_sync, row, "baseline sync"@),
        either(
            absence(i.current_sync, row, "current sync"@),
            either(
                absence(i.baseline_nosync, row, "baseline no-sync"@),
                either(
                    absence(i.current_nosync, row, "current no-sync"@),
                    either(
                        ratio_error(found(i.baseline_nosync, row, "baseline no-sync"@).ops),
                        ratio_error(found(i.current_nosync, row, "current no-sync"@).ops),
                    ),
                ),
            ),
        ),
    )
}

/// The error of the first of the first `n` ratio rows that has no ratios.
pub open spec fn ratio_rows_error(i: GateInputs, rows: Seq<Seq<char>>, n: nat) -> Option<Seq<char>>
    decreases n,
{
    if n == 0 {
        None
    } else {
        either(ratio_rows_error(i, rows, (n - 1) as nat), ratio_row_error(i, rows[n - 1]))
    }
}

proof fn lemma_ratio_rows_error(i: GateInputs, rows: Seq<Seq<char>>, k: nat, n: nat)
    requires
        k <= n,
        ratio_rows_error(i, rows, k) is Some,
    ensures
        ratio_rows_error(i, rows, n) == ratio_rows_error(i, rows, k),
    decreases n,
{
    if k < n {
        lemma_ratio_rows_error(i, rows, k, (n - 1) as nat);
    }
}

/// How many of the first `n` ratio rows improved.
pub open spec fn improvements(f: GateFigures, n: nat) -> nat
    decreases n,
{
    if n == 0 {
        0
    } else {
        improvements(f, (n - 1) as nat) + if f.ratios@[n - 1].baseline.less(
            f.ratios@[n - 1].current,
        ) {
            1nat
        } else {
            0nat
        }
    }
}

pub open spec fn ratio_line(row: Seq<char>, f: RatioFigures) -> Seq<char> {
    "- "@ + row + ": "@ + f.baseline_percent@ + "% -> "@ + f.current_percent@ + "% ("@
        + figure::change_signed(f.current, f.baseline, f.change) + "%)\n"@
}

/// The lines of the first `n` ratio rows.
pub open spec fn ratio_lines(cfg: GateConfig, f: GateFigures, n: nat) -> Seq<Seq<char>>
    decreases n,
{
    if n == 0 {
        Seq::empty()
    } else {
        ratio_lines(cfg, f, (n - 1) as nat).push(
            ratio_line(cfg.ratio_rows@[n - 1]@, f.ratios@[n - 1]),
        )
    }
}

pub open spec fn few_improvements(improved: nat, wanted: usize) -> Seq<char> {
    "only "@ + text::decimal(improved) + " sync/no-sync ratio rows improved; need "@
        + text::decimal(wanted as nat)
}

pub open spec fn ratio_failures(cfg: GateConfig, f: GateFigures) -> Seq<Seq<char>> {
    let improved = improvements(f, cfg.ratio_rows@.len());
    figure::note(
        improved < cfg.min_ratio_improvements,
        few_improvements(improved, cfg.min_ratio_improvements),
    )
}

/// The ratios of a row, if the tables have them.
fn check_ratio_row(inputs: &GateInputs, row: &str, figures: &RatioFigures) -> (r: Result<
    (),
    Failure,
>)
    ensures
        match (r, ratio_row_error(*inputs, row@)) {
            (Ok(()), None) => true,
            (Err(e), Some(t)) => e@ == t,
            _ => false,
        },
{
    if let Err(e) = required_row(&inputs.baseline_sync, row, "baseline sync") {
        return Err(e);
    }
    if let Err(e) = required_row(&inputs.current_sync, row, "current sync") {
        return Err(e);
    }
    let baseline: &BenchRow = match required_row(
        &inputs.baseline_nosync,
        row,
        "baseline no-sync",
    ) {
        Ok(b) => b,
        Err(e) => {
            return Err(e);
        },
    };
    let current: &BenchRow = match required_row(&inputs.current_nosync, row, "current no-sync") {
        Ok(c) => c,
        Err(e) => {
            return Err(e);
        },
    };
    if let Err(e) = ratio(&baseline.ops, figures.baseline) {
        return Err(e);
    }
    if let Err(e) = ratio(&current.ops, figures.current) {
        return Err(e);
    }
    Ok(())
}

fn ratio_section(
    cfg: &GateConfig,
    inputs: &GateInputs,
    figures: &GateFigures,
    out: &mut String,
    failures: &mut Vec<String>,
) -> (r: Result<(), Failure>)
    requires
        figures.ratios@.len() == cfg.ratio_rows@.len(),
    ensures
        match (
            r,
            ratio_rows_error(*inputs, text::texts(cfg.ratio_rows@), cfg.ratio_rows@.len()),
        ) {
            (Ok(()), None) => {
                &&& final(out)@ == old(out)@ + figure::flat(
                    ratio_lines(*cfg, *figures, cfg.ratio_rows@.len()),
                )
                &&& text::texts(final(failures)@) == text::texts(old(failures)@) + ratio_failures(
                    *cfg,
                    *figures,
                )
            },
            (Err(e), Some(t)) => e@ == t,
            _ => false,
        },
{
    let ghost rows = text::texts(cfg.ratio_rows@);
    let ghost out0 = out@;
    let mut improved: usize = 0;
    let mut i: usize = 0;
    assert(out0 + figure::flat(Seq::empty()) =~= out0);
    #[verifier::loop_isolation(false)]
    while i < cfg.ratio_rows.len()
        invariant
            i <= cfg.ratio_rows@.len(),
            improved <= i,
            improved == improvements(*figures, i as nat),
            ratio_rows_error(*inputs, rows, i as nat) is None,
            out@ == out0 + figure::flat(ratio_lines(*cfg, *figures, i as nat)),
        decreases cfg.ratio_rows@.len() - i,
    {
        let row: &str = cfg.ratio_rows[i].as_str();
        assert(rows[i as int] == row@);
        proof {
            if ratio_rows_error(*inputs, rows, (i + 1) as nat) is Some {
                lemma_ratio_rows_error(*inputs, rows, (i + 1) as nat, rows.len());
            }
        }
        let f: &RatioFigures = &figures.ratios[i];
        if let Err(e) = check_ratio_row(inputs, row, f) {
            return Err(e);
        }
        let delta: Change = change(f.current, f.baseline, &f.change);
        if f.baseline.lt(f.current) {
            improved = improved + 1;
        }
        let mut line: String = cat5("- ", row, ": ", f.baseline_percent.as_str(), "% -> ");
        line.append(f.current_percent.as_str());
        line.append("% (");
        line.append(delta.signed.as_str());
        line.append("%)\n");
        let ghost lines = ratio_lines(*cfg, *figures, i as nat);
        proof {
            lemma_flat_push(lines, line@);
            assert(out0 + figure::flat(lines) + line@ =~= out0 + (figure::flat(lines) + line@));
        }
        out.append(line.as_str());
        i = i + 1;
    }
    let message: String = cat4(
        "only ",
        decimal_text(improved as u128).as_str(),
        " sync/no-sync ratio rows improved; need ",
        decimal_text(cfg.min_ratio_improvements as u128).as_str(),
    );
    add_note(failures, improved < cfg.min_ratio_improvements, message);
    Ok(())
}

pub open spec fn fjall_line(row: Seq<char>, c: BenchRow, fjall: BenchRow, q: Change) -> Seq<char> {
    "- "@ + row + ": ToyKV "@ + c.ops.fixed@ + " / Fjall "@ + fjall.ops.fixed@ + " OPS ("@ + signed(
        c.ops,
        fjall.ops,
        q,
    ) + "%)\n"@
}

pub open spec fn fjall_failure(
    row: Seq<char>,
    c: BenchRow,
    fjall: BenchRow,
    q: Change,
    limit: Figure,
) -> Seq<char> {
    row + " current sync OPS is below Fjall by "@ + fixed(c.ops, fjall.ops, q) + "%, below -"@
        + limit.fixed@ + "%"@
}

/// The lines of the first `n` rows of the perf gate against Fjall.
pub open spec fn fjall_lines(
    cfg: GateConfig,
    current: BenchCsv,
    fjall: BenchCsv,
    f: GateFigures,
    n: nat,
) -> Seq<Seq<char>>
    decreases n,
{
    if n == 0 {
        Seq::empty()
    } else {
        let row = cfg.rows@[n - 1]@;
        fjall_lines(cfg, current, fjall, f, (n - 1) as nat).push(
            fjall_line(
                row,
                found(current, row, "current sync"@),
                found(fjall, row, "Fjall sync"@),
                f.fjall@[n - 1],
            ),
        )
    }
}

/// The failures of the first `n` rows of the perf gate against Fjall.
pub open spec fn fjall_failures(
    cfg: GateConfig,
    current: BenchCsv,
    fjall: BenchCsv,
    f: GateFigures,
    n: nat,
) -> Seq<Seq<char>>
    decreases n,
{
    if n == 0 {
        Seq::empty()
    } else {
        let row = cfg.rows@[n - 1]@;
        let c = found(current, row, "current sync"@);
        let o = found(fjall, row, "Fjall sync"@);
        let q = f.fjall@[n - 1];
        fjall_failures(cfg, current, fjall, f, (n - 1) as nat) + figure::note(
            regressed(c.ops, o.ops, q, cfg.max_sync_regression_pct),
            fjall_failure(row, c, o, q, cfg.max_sync_regression_pct),
        )
    }
}

fn fjall_section(
    cfg: &GateConfig,
    toykv: &BenchCsv,
    fjall: &BenchCsv,
    figures: &GateFigures,
    out: &mut String,
    failures: &mut Vec<String>,
) -> (r: Result<(), Failure>)
    requires
        figures.fjall@.len() == cfg.rows@.len(),
    ensures
        match (
            r,
            pairs_error(
                *toykv,
                "current sync"@,
                *fjall,
                "Fjall sync"@,
                text::texts(cfg.rows@),
                cfg.rows@.len(),
            ),
        ) {
            (Ok(()), None) => {
                &&& final(out)@ == old(out)@ + figure::flat(
                    fjall_lines(*cfg, *toykv, *fjall, *figures, cfg.rows@.len()),
                )
                &&& text::texts(final(failures)@) == text::texts(old(failures)@) + fjall_failures(
                    *cfg,
                    *toykv,
                    *fjall,
                    *figures,
                    cfg.rows@.len(),
                )
            },
            (Err(e), Some(t)) => e@ == t,
            _ => false,
        },
{
    let ghost rows = text::texts(cfg.rows@);
    let ghost out0 = out@;
    let ghost fail0 = text::texts(failures@);
    let mut i: usize = 0;
    assert(out0 + figure::flat(Seq::empty()) =~= out0);
    assert(fail0 + Seq::<Seq<char>>::empty() =~= fail0);
    #[verifier::loop_isolation(false)]
    while i < cfg.rows.len()
        invariant
            i <= cfg.rows@.len(),
            pairs_error(*toykv, "current sync"@, *fjall, "Fjall sync"@, rows, i as nat) is None,
            out@ == out0 + figure::flat(fjall_lines(*cfg, *toykv, *fjall, *figures, i as nat)),
            text::texts(failures@) == fail0 + fjall_failures(
                *cfg,
                *toykv,
                *fjall,
                *figures,
                i as nat,
            ),
        decreases cfg.rows@.len() - i,
    {
        let row: &str = cfg.rows[i].as_str();
        assert(rows[i as int] == row@);
        proof {
            if pairs_error(
                *toykv,
                "current sync"@,
                *fjall,
                "Fjall sync"@,
                rows,
                (i + 1) as nat,
            ) is Some {
                lemma_pairs_error(
                    *toykv,
                    "current sync"@,
                    *fjall,
                    "Fjall sync"@,
                    rows,
                    (i + 1) as nat,
                    rows.len(),
                );
            }
        }
        let current: &BenchRow = match required_row(toykv, row, "current sync") {
            Ok(c) => c,
            Err(e) => {
                return Err(e);
            },
        };
        let other: &BenchRow = match required_row(fjall, row, "Fjall sync") {
            Ok(o) => o,
            Err(e) => {
                return Err(e);
            },
        };
        let delta: Change = change(current.ops.value, other.ops.value, &figures.fjall[i]);
        let mut line: String = cat5(
            "- ",
            row,
            ": ToyKV ",
            current.ops.fixed.as_str(),
            " / Fjall ",
        );
        line.append(other.ops.fixed.as_str());
        line.append(" OPS (");
        line.append(delta.signed.as_str());
        line.append("%)\n");
        let ghost lines = fjall_lines(*cfg, *toykv, *fjall, *figures, i as nat);
        proof {
            lemma_flat_push(lines, line@);
            assert(out0 + figure::flat(lines) + line@ =~= out0 + (figure::flat(lines) + line@));
        }
        out.append(line.as_str());
        let message: String = cat5(
            row,
            " current sync OPS is below Fjall by ",
            delta.fixed.as_str(),
            "%, below -",
            cfg.max_sync_regression_pct.fixed.as_str(),
        ).concat("%");
        add_note(
            failures,
            delta.value.lt(cfg.max_sync_regression_pct.value.neg()),
            message,
        );
        i = i + 1;
        assert(text::texts(failures@) =~= fail0 + fjall_failures(
            *cfg,
            *toykv,
            *fjall,
            *figures,
            i as nat,
        ));
    }
    Ok(())
}

pub open spec fn latency_line(
    row: Seq<char>,
    b: BenchRow,
    c: BenchRow,
    q95: Change,
    q99: Change,
) -> Seq<char> {
    "- "@ + row + ": p95 "@ + b.p95_ms.fixed@ + " -> "@ + c.p95_ms.fixed@ + " ms ("@ + signed(
        c.p95_ms,
        b.p95_ms,
        q95,
    ) + "%), p99 "@ + b.p99_ms.fixed@ + " -> "@ + c.p99_ms.fixed@ + " ms ("@ + signed(
        c.p99_ms,
        b.p99_ms,
        q99,
    ) + "%)\n"@
}

pub open spec fn latency_failure(
    row: Seq<char>,
    quantile: Seq<char>,
    b: Figure,
    c: Figure,
    q: Change,
    limit: Figure,
) -> Seq<char> {
    row + quantile + fixed(c, b, q) + "%, above "@ + limit.fixed@ + "%"@
}

/// The lines of the first `n` rows of the latency gate.
pub open spec fn latency_lines(
    cfg: GateConfig,
    baseline: BenchCsv,
    current: BenchCsv,
    f: GateFigures,
    n: nat,
) -> Seq<Seq<char>>
    decreases n,
{
    if n == 0 {
        Seq::empty()
    } else {
        let row = cfg.rows@[n - 1]@;
        latency_lines(cfg, baseline, current, f, (n - 1) as nat).push(
            latency_line(
                row,
                found(baseline, row, "baseline latency sync"@),
                found(current, row, "current latency sync"@),
                f.latency_p95@[n - 1],
                f.latency_p99@[n - 1],
            ),
        )
    }
}

/// The failures of the first `n` rows of the latency gate.
pub open spec fn latency_failures(
    cfg: GateConfig,
    baseline: BenchCsv,
    current: BenchCsv,
    f: GateFigures,
    n: nat,
) -> Seq<Seq<char>>
    decreases n,
{
    if n == 0 {
        Seq::empty()
    } else {
        let row = cfg.rows@[n - 1]@;
        let b = found(baseline, row, "baseline latency sync"@);
        let c = found(current, row, "current latency sync"@);
        let limit = cfg.max_latency_regression_pct;
        latency_failures(cfg, baseline, current, f, (n - 1) as nat) + figure::note(
            increased(c.p95_ms, b.p95_ms, f.latency_p95@[n - 1], limit),
            latency_failure(
                row,
                " p95 regressed "@,
                b.p95_ms,
                c.p95_ms,
                f.latency_p95@[n - 1],
                limit,
            ),
        ) + figure::note(
            increased(c.p99_ms, b.p99_ms, f.latency_p99@[n - 1], limit),
            latency_failure(
                row,
                " p99 regressed "@,
                b.p99_ms,
                c.p99_ms,
                f.latency_p99@[n - 1],
                limit,
            ),
        )
    }
}

fn latency_section(
    cfg: &GateConfig,
    baseline: &BenchCsv,
    current: &BenchCsv,
    figures: &GateFigures,
    out: &mut String,
    failures: &mut Vec<String>,
) -> (r: Result<(), Failure>)
    requires
        figures.latency_p95@.len() == cfg.rows@.len(),
        figures.latency_p99@.len() == cfg.rows@.len(),
    ensures
        match (
            r,
            pairs_error(
                *baseline,
                "baseline latency sync"@,
                *current,
                "current latency sync"@,
                text::texts(cfg.rows@),
                cfg.rows@.len(),
            ),
        ) {
            (Ok(()), None) => {
                &&& final(out)@ == old(out)@ + figure::flat(
                    latency_lines(*cfg, *baseline, *current, *figures, cfg.rows@.len()),
                )
                &&& text::texts(final(failures)@) == text::texts(old(failures)@)
                    + latency_failures(*cfg, *baseline, *current, *figures, cfg.rows@.len())
            },
            (Err(e), Some(t)) => e@ == t,
            _ => false,
        },
{
    let ghost rows = text::texts(cfg.rows@);
    let ghost out0 = out@;
    let ghost fail0 = text::texts(failures@);
    let mut i: usize = 0;
    assert(out0 + figure::flat(Seq::empty()) =~= out0);
    assert(fail0 + Seq::<Seq<char>>::empty() =~= fail0);
    #[verifier::loop_isolation(false)]
    while i < cfg.rows.len()
        invariant
            i <= cfg.rows@.len(),
            pairs_error(
                *baseline,
                "baseline latency sync"@,
                *current,
                "current latency sync"@,
                rows,
                i as nat,
            ) is None,
            out@ == out0 + figure::flat(
                latency_lines(*cfg, *baseline, *current, *figures, i as nat),
            ),
            text::texts(failures@) == fail0 + latency_failures(
                *cfg,
                *baseline,
                *current,
                *figures,
                i as nat,
            ),
        decreases cfg.rows@.len() - i,
    {
        let row: &str = cfg.rows[i].as_str();
        assert(rows[i as int] == row@);
        proof {
            if pairs_error(
                *baseline,
                "baseline latency sync"@,
                *current,
                "current latency sync"@,
                rows,
                (i + 1) as nat,
            ) is Some {
                lemma_pairs_error(
                    *baseline,
                    "baseline latency sync"@,
                    *current,
                    "current latency sync"@,
                    rows,
                    (i + 1) as nat,
                    rows.len(),
                );
            }
        }
        let before: &BenchRow = match required_row(baseline, row, "baseline latency sync") {
            Ok(b) => b,
            Err(e) => {
                return Err(e);
            },
        };
        let now: &BenchRow = match required_row(current, row, "current latency sync") {
            Ok(c) => c,
            Err(e) => {
                return Err(e);
            },
        };
        let p95: Change = change(
            now.p95_ms.value,
            before.p95_ms.value,
            &figures.latency_p95[i],
        );
        let p99: Change = change(
            now.p99_ms.value,
            before.p99_ms.value,
            &figures.latency_p99[i],
        );
        let mut line: String = cat5("- ", row, ": p95 ", before.p95_ms.fixed.as_str(), " -> ");
        line.append(now.p95_ms.fixed.as_str());
        line.append(" ms (");
        line.append(p95.signed.as_str());
        line.append("%), p99 ");
        line.append(before.p99_ms.fixed.as_str());
        line.append(" -> ");
        line.append(now.p99_ms.fixed.as_str());
        line.append(" ms (");
        line.append(p99.signed.as_str());
        line.append("%)\n");
        let ghost lines = latency_lines(*cfg, *baseline, *current, *figures, i as nat);
        proof {
            lemma_flat_push(lines, line@);
            assert(out0 + figure::flat(lines) + line@ =~= out0 + (figure::flat(lines) + line@));
        }
        out.append(line.as_str());
        let limit: &Figure = &cfg.max_latency_regression_pct;
        let p95_message: String = cat5(
            row,
            " p95 regressed ",
            p95.fixed.as_str(),
            "%, above ",
            limit.fixed.as_str(),
        ).concat("%");
        add_note(failures, limit.value.lt(p95.value), p95_message);
        let p99_message: String = cat5(
            row,
            " p99 regressed ",
            p99.fixed.as_str(),
            "%, above ",
            limit.fixed.as_str(),
        ).concat("%");
        add_note(failures, limit.value.lt(p99.value), p99_message);
        i = i + 1;
        assert(text::texts(failures@) =~= fail0 + latency_failures(
            *cfg,
            *baseline,
            *current,
            *figures,
            i as nat,
        ));
    }
    Ok(())
}

/// Why the perf gate against Fjall cannot be judged, if it cannot.
pub open spec fn fjall_error(cfg: GateConfig, i: GateInputs) -> Option<Seq<char>> {
    match i.fjall_sync {
        Some(fjall) => pairs_error(
            i.current_sync,
            "current sync"@,
            fjall,
            "Fjall sync"@,
            text::texts(cfg.rows@),
            cfg.rows@.len(),
        ),
        None => None,
    }
}

/// Why the latency gate cannot be judged, if it cannot: it takes both tables or neither.
pub open spec fn latency_error(cfg: GateConfig, i: GateInputs) -> Option<Seq<char>> {
    match (i.baseline_latency_sync, i.current_latency_sync) {
        (Some(baseline), Some(current)) => pairs_error(
            baseline,
            "baseline latency sync"@,
            current,
            "current latency sync"@,
            text::texts(cfg.rows@),
            cfg.rows@.len(),
        ),
        (None, None) => None,
        _ => Some(
            "latency gate requires both --baseline-latency-sync and --current-latency-sync"@,
        ),
    }
}

/// Why the perf gate cannot be judged, if it cannot: the first thing in the order of the report.
pub open spec fn gate_error(cfg: GateConfig, i: GateInputs) -> Option<Seq<char>> {
    either(
        config_error(cfg),
        either(
            pairs_error(
                i.baseline_sync,
                "baseline sync"@,
                i.current_sync,
                "current sync"@,
                text::texts(cfg.rows@),
                cfg.rows@.len(),
            ),
            either(
                ratio_rows_error(i, text::texts(cfg.ratio_rows@), cfg.ratio_rows@.len()),
                either(fjall_error(cfg, i), latency_error(cfg, i)),
            ),
        ),
    )
}

/// What the perf gate against Fjall fails, where it is asked for.
pub open spec fn fjall_part_failures(cfg: GateConfig, i: GateInputs, f: GateFigures) -> Seq<
    Seq<char>,
> {
    match i.fjall_sync {
        Some(fjall) => fjall_failures(cfg, i.current_sync, fjall, f, cfg.rows@.len()),
        None => Seq::empty(),
    }
}

/// What the latency gate fails, where it is asked for.
pub open spec fn latency_part_failures(cfg: GateConfig, i: GateInputs, f: GateFigures) -> Seq<
    Seq<char>,
> {
    match (i.baseline_latency_sync, i.current_latency_sync) {
        (Some(baseline), Some(current)) => latency_failures(
            cfg,
            baseline,
            current,
            f,
            cfg.rows@.len(),
        ),
        _ => Seq::empty(),
    }
}

/// Everything that fails the perf gate.
pub open spec fn gate_failures(cfg: GateConfig, i: GateInputs, f: GateFigures) -> Seq<Seq<char>> {
    sync_failures(cfg, i, f, cfg.rows@.len()) + ratio_failures(cfg, f) + fjall_part_failures(
        cfg,
        i,
        f,
    ) + latency_part_failures(cfg, i, f)
}

/// The report of the perf gate against Fjall, where it is asked for.
pub open spec fn fjall_part(cfg: GateConfig, i: GateInputs, f: GateFigures) -> Seq<char> {
    match i.fjall_sync {
        Some(fjall) => "\nFjall-relative sync OPS gate:\n"@ + figure::flat(
            fjall_lines(cfg, i.current_sync, fjall, f, cfg.rows@.len()),
        ),
        None => Seq::empty(),
    }
}

/// The report of the latency gate.
pub open spec fn latency_part(cfg: GateConfig, i: GateInputs, f: GateFigures) -> Seq<char> {
    match (i.baseline_latency_sync, i.current_latency_sync) {
        (Some(baseline), Some(current)) => "\nSingle-client p95/p99 latency gate:\n"@
            + figure::flat(latency_lines(cfg, baseline, current, f, cfg.rows@.len())),
        _ => "\nSingle-client p95/p99 latency gate: skipped; no latency CSVs supplied.\n"@,
    }
}

/// The report of the perf gate, up to its result.
pub open spec fn gate_report(cfg: GateConfig, i: GateInputs, f: GateFigures) -> Seq<char> {
    "ToyKV sync perf gate\n\n"@ + "Sync OPS regression gate:\n"@ + figure::flat(
        sync_lines(cfg, i, f, cfg.rows@.len()),
    ) + "\nSync/no-sync ratio gate:\n"@ + figure::flat(
        ratio_lines(cfg, f, cfg.ratio_rows@.len()),
    ) + fjall_part(cfg, i, f) + latency_part(cfg, i, f)
}

/// Whether the figures go with the rows.
pub open spec fn figures_fit(cfg: GateConfig, i: GateInputs, f: GateFigures) -> bool {
    &&& f.sync@.len() == cfg.rows@.len()
    &&& f.ratios@.len() == cfg.ratio_rows@.len()
    &&& i.fjall_sync is Some ==> f.fjall@.len() == cfg.rows@.len()
    &&& i.baseline_latency_sync is Some && i.current_latency_sync is Some
        ==> f.latency_p95@.len() == cfg.rows@.len() && f.latency_p99@.len() == cfg.rows@.len()
}

fn optional_sections(
    cfg: &GateConfig,
    inputs: &GateInputs,
    figures: &GateFigures,
    out: &mut String,
    failures: &mut Vec<String>,
) -> (r: Result<(), Failure>)
    requires
        figures_fit(*cfg, *inputs, *figures),
    ensures
        match (r, either(fjall_error(*cfg, *inputs), latency_error(*cfg, *inputs))) {
            (Ok(()), None) => {
                &&& final(out)@ == old(out)@ + fjall_part(*cfg, *inputs, *figures) + latency_part(
                    *cfg,
                    *inputs,
                    *figures,
                )
                &&& text::texts(final(failures)@) == text::texts(old(failures)@)
                    + fjall_part_failures(*cfg, *inputs, *figures) + latency_part_failures(
                    *cfg,
                    *inputs,
                    *figures,
                )
            },
            (Err(e), Some(t)) => e@ == t,
            _ => false,
        },
{
    if let Some(fjall) = &inputs.fjall_sync {
        out.append("\nFjall-relative sync OPS gate:\n");
        if let Err(e) = fjall_section(cfg, &inputs.current_sync, fjall, figures, out, failures) {
            return Err(e);
        }
    }
    assert(out@ =~= old(out)@ + fjall_part(*cfg, *inputs, *figures));
    assert(text::texts(failures@) =~= text::texts(old(failures)@) + fjall_part_failures(
        *cfg,
        *inputs,
        *figures,
    ));
    let ghost before = out@;
    let ghost failed = text::texts(failures@);
    match (&inputs.baseline_latency_sync, &inputs.current_latency_sync) {
        (Some(baseline), Some(current)) => {
            out.append("\nSingle-client p95/p99 latency gate:\n");
            if let Err(e) = latency_section(cfg, baseline, current, figures, out, failures) {
                return Err(e);
            }
        },
        (None, None) => {
            out.append(
                "\nSingle-client p95/p99 latency gate: skipped; no latency CSVs supplied.\n",
            );
        },
        _ => {
            return Err(
                Failure::new(
                    "latency gate requires both --baseline-latency-sync and --current-latency-sync".to_owned(),
                ),
            );
        },
    }
    assert(out@ =~= before + latency_part(*cfg, *inputs, *figures));
    assert(text::texts(failures@) =~= failed + latency_part_failures(*cfg, *inputs, *figures));
    Ok(())
}

/// Judges the tables: throughput must not fall too far, enough ratios must improve, and latency must
/// not rise too far.
pub fn evaluate(cfg: &GateConfig, inputs: &GateInputs, figures: &GateFigures) -> (r: Result<
    Evaluation,
    Failure,
>)
    requires
        figures_fit(*cfg, *inputs, *figures),
    ensures
        match (r, gate_error(*cfg, *inputs)) {
            (Ok(e), None) => {
                &&& e.report@ == gate_report(*cfg, *inputs, *figures) + figure::conclusion(
                    gate_failures(*cfg, *inputs, *figures),
                )
                &&& e.passed == (gate_failures(*cfg, *inputs, *figures).len() == 0)
            },
            (Err(e), Some(t)) => e@ == t,
            _ => false,
        },
{
    if let Err(e) = validate_config(cfg) {
        return Err(e);
    }
    let mut failures: Vec<String> = Vec::new();
    let ghost none = Seq::<Seq<char>>::empty();
    assert(text::texts(failures@) =~= none);
    let mut out: String = cat2("ToyKV sync perf gate\n\n", "Sync OPS regression gate:\n");
    if let Err(e) = sync_section(cfg, inputs, figures, &mut out, &mut failures) {
        return Err(e);
    }
    assert(text::texts(failures@) =~= sync_failures(*cfg, *inputs, *figures, cfg.rows@.len()));
    out.append("\nSync/no-sync ratio gate:\n");
    if let Err(e) = ratio_section(cfg, inputs, figures, &mut out, &mut failures) {
        return Err(e);
    }
    if let Err(e) = optional_sections(cfg, inputs, figures, &mut out, &mut failures) {
        return Err(e);
    }
    let ghost all = gate_failures(*cfg, *inputs, *figures);
    assert(text::texts(failures@) == all);
    assert(failures@.len() == all.len());
    Ok(conclude(out, &failures))
}

/// Whether no row fell too far below the other table.
pub open spec fn keeps_pace(
    cfg: GateConfig,
    current: BenchCsv,
    other: BenchCsv,
    source: Seq<char>,
    changes: Seq<Change>,
    n: nat,
) -> bool {
    forall|k: int|
        0 <= k < n ==> !regressed(
            found(current, (#[trigger] cfg.rows@[k])@, "current sync"@).ops,
            found(other, cfg.rows@[k]@, source).ops,
            changes[k],
            cfg.max_sync_regression_pct,
        )
}

/// Whether the latency of no row rose too far.
pub open spec fn keeps_latency(
    cfg: GateConfig,
    baseline: BenchCsv,
    current: BenchCsv,
    f: GateFigures,
    n: nat,
) -> bool {
    forall|k: int|
        0 <= k < n ==> {
            let b = found(baseline, (#[trigger] cfg.rows@[k])@, "baseline latency sync"@);
            let c = found(current, cfg.rows@[k]@, "current latency sync"@);
            &&& !increased(c.p95_ms, b.p95_ms, f.latency_p95@[k], cfg.max_latency_regression_pct)
            &&& !increased(c.p99_ms, b.p99_ms, f.latency_p99@[k], cfg.max_latency_regression_pct)
        }
}

/// The perf gate passes exactly where no row fell too far below the baseline or, where it is asked
/// for, below Fjall, enough ratios improved and, where it is asked for, no latency rose too far.
pub proof fn lemma_gate_passes(cfg: GateConfig, i: GateInputs, f: GateFigures)
    ensures
        gate_failures(cfg, i, f).len() == 0 <==> {
            let n = cfg.rows@.len();
            &&& keeps_pace(cfg, i.current_sync, i.baseline_sync, "baseline sync"@, f.sync@, n)
            &&& improvements(f, cfg.ratio_rows@.len()) >= cfg.min_ratio_improvements
            &&& i.fjall_sync matches Some(fjall) ==> keeps_pace(
                cfg,
                i.current_sync,
                fjall,
                "Fjall sync"@,
                f.fjall@,
                n,
            )
            &&& (i.baseline_latency_sync is Some && i.current_latency_sync is Some)
                ==> keeps_latency(
                cfg,
                i.baseline_latency_sync->0,
                i.current_latency_sync->0,
                f,
                n,
            )
        },
{
    let n = cfg.rows@.len();
    lemma_sync_failures(cfg, i, f, n);
    if let Some(fjall) = i.fjall_sync {
        lemma_fjall_failures(cfg, i.current_sync, fjall, f, n);
    }
    if i.baseline_latency_sync is Some && i.current_latency_sync is Some {
        lemma_latency_failures(
            cfg,
            i.baseline_latency_sync->0,
            i.current_latency_sync->0,
            f,
            n,
        );
    }
}

proof fn lemma_sync_failures(cfg: GateConfig, i: GateInputs, f: GateFigures, n: nat)
    requires
        n <= cfg.rows@.len(),
    ensures
        sync_failures(cfg, i, f, n).len() == 0 <==> keeps_pace(
            cfg,
            i.current_sync,
            i.baseline_sync,
            "baseline sync"@,
            f.sync@,
            n,
        ),
    decreases n,
{
    if n > 0 {
        lemma_sync_failures(cfg, i, f, (n - 1) as nat);
        let row = cfg.rows@[n - 1]@;
        assert(sync_failures(cfg, i, f, n).len() >= sync_failures(cfg, i, f, (n - 1) as nat).len());
    }
}

proof fn lemma_fjall_failures(
    cfg: GateConfig,
    current: BenchCsv,
    fjall: BenchCsv,
    f: GateFigures,
    n: nat,
)
    requires
        n <= cfg.rows@.len(),
    ensures
        fjall_failures(cfg, current, fjall, f, n).len() == 0 <==> keeps_pace(
            cfg,
            current,
            fjall,
            "Fjall sync"@,
            f.fjall@,
            n,
        ),
    decreases n,
{
    if n > 0 {
        lemma_fjall_failures(cfg, current, fjall, f, (n - 1) as nat);
        let row = cfg.rows@[n - 1]@;
        assert(fjall_failures(cfg, current, fjall, f, n).len() >= fjall_failures(
            cfg,
            current,
            fjall,
            f,
            (n - 1) as nat,
        ).len());
    }
}

proof fn lemma_latency_failures(
    cfg: GateConfig,
    baseline: BenchCsv,
    current: BenchCsv,
    f: GateFigures,
    n: nat,
)
    requires
        n <= cfg.rows@.len(),
    ensures
        latency_failures(cfg, baseline, current, f, n).len() == 0 <==> keeps_latency(
            cfg,
            baseline,
            current,
            f,
            n,
        ),
    decreases n,
{
    if n > 0 {
        lemma_latency_failures(cfg, baseline, current, f, (n - 1) as nat);
        let row = cfg.rows@[n - 1]@;
        assert(latency_failures(cfg, baseline, current, f, n).len() >= latency_failures(
            cfg,
            baseline,
            current,
            f,
            (n - 1) as nat,
        ).len());
    }
}

} // verus!
