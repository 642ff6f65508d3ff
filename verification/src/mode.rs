//! What the perf gate is asked to do, by its command line.
use crate::failure::Failure;
use crate::figure::Figure;
use crate::gate;
use crate::gate::GateConfig;
use crate::steadygate::SteadyStateGateConfig;
use crate::text;
use crate::text::{cat2, holds_text};
use crate::workload;
use crate::workload::SteadyStateWorkload;
use vstd::prelude::*;

verus! {

/// The command line of the perf gate; files are given by path.
pub struct GateArgs {
    pub baseline_sync: Option<String>,
    pub current_sync: Option<String>,
    pub baseline_nosync: Option<String>,
    pub current_nosync: Option<String>,
    pub baseline_steady_state_json: Option<String>,
    pub current_steady_state_json: Option<String>,
    pub steady_state_rows: Vec<String>,
    pub optional_steady_state_rows: Vec<String>,
    pub fjall_sync: Option<String>,
    pub baseline_latency_sync: Option<String>,
    pub current_latency_sync: Option<String>,
    pub rows: Vec<String>,
    pub ratio_rows: Vec<String>,
    pub max_sync_regression_pct: Figure,
    pub max_ops_regression_pct: Figure,
    pub allow_database_mismatch: bool,
    pub min_ratio_improvements: usize,
    pub max_latency_regression_pct: Figure,
}

/// The rows of the CSV gate where none are named.
pub open spec fn default_rows_spec() -> Seq<Seq<char>> {
    seq![
        "put_c"@,
        "batch_create_100"@,
        "batch_create_1000"@,
        "batch_delete_100"@,
        "batch_delete_1000"@,
    ]
}

/// The ratio rows of the CSV gate where none are named.
pub open spec fn default_ratio_rows_spec() -> Seq<Seq<char>> {
    seq!["put_c"@, "batch_create_1000"@, "batch_delete_1000"@]
}

/// The rows of the steady-state gate where none are named.
pub open spec fn default_steady_state_rows_spec() -> Seq<Seq<char>> {
    seq![
        "balanced_zipfian"@,
        "read_heavy_zipfian"@,
        "update_heavy_zipfian"@,
        "point_read_zipfian"@,
        "point_read_uniform"@,
        "point_read_missing_in_range"@,
        "range_scan_uniform"@,
        "sustained_ingest"@,
    ]
}

fn default_rows() -> (r: Vec<String>)
    ensures
        text::texts(r@) == default_rows_spec(),
{
    let r: Vec<String> = vec![
        "put_c".to_owned(),
        "batch_create_100".to_owned(),
        "batch_create_1000".to_owned(),
        "batch_delete_100".to_owned(),
        "batch_delete_1000".to_owned(),
    ];
    assert(text::texts(r@) =~= default_rows_spec());
    r
}

fn default_ratio_rows() -> (r: Vec<String>)
    ensures
        text::texts(r@) == default_ratio_rows_spec(),
{
    let r: Vec<String> = vec![
        "put_c".to_owned(),
        "batch_create_1000".to_owned(),
        "batch_delete_1000".to_owned(),
    ];
    assert(text::texts(r@) =~= default_ratio_rows_spec());
    r
}

fn default_steady_state_rows() -> (r: Vec<String>)
    ensures
        text::texts(r@) == default_steady_state_rows_spec(),
{
    let r: Vec<String> = vec![
        "balanced_zipfian".to_owned(),
        "read_heavy_zipfian".to_owned(),
        "update_heavy_zipfian".to_owned(),
        "point_read_zipfian".to_owned(),
        "point_read_uniform".to_owned(),
        "point_read_missing_in_range".to_owned(),
        "range_scan_uniform".to_owned(),
        "sustained_ingest".to_owned(),
    ];
    assert(text::texts(r@) =~= default_steady_state_rows_spec());
    r
}

pub open spec fn wants_steady_state(args: GateArgs) -> bool {
    ||| args.baseline_steady_state_json is Some
    ||| args.current_steady_state_json is Some
    ||| args.steady_state_rows@.len() > 0
    ||| args.optional_steady_state_rows@.len() > 0
    ||| args.allow_database_mismatch
}

/// Whether the command line asks for the steady-state gate.
pub fn uses_steady_state_mode(args: &GateArgs) -> (r: bool)
    ensures
        r == wants_steady_state(*args),
{
    args.baseline_steady_state_json.is_some() || args.current_steady_state_json.is_some()
        || args.steady_state_rows.len() > 0 || args.optional_steady_state_rows.len() > 0
        || args.allow_database_mismatch
}

/// The rows with the first `n` optional ones added, each name once.
pub open spec fn with_optional(rows: Seq<Seq<char>>, optional: Seq<Seq<char>>, n: nat) -> Seq<
    Seq<char>,
>
    decreases n,
{
    if n == 0 {
        rows
    } else {
        let before = with_optional(rows, optional, (n - 1) as nat);
        if before.contains(optional[n - 1]) {
            before
        } else {
            before.push(optional[n - 1])
        }
    }
}

pub open spec fn or_default(given: Seq<Seq<char>>, fallback: Seq<Seq<char>>) -> Seq<Seq<char>> {
    if given.len() == 0 {
        fallback
    } else {
        given
    }
}

/// The rows that the steady-state gate judges: the required ones, or the default ones where none are
/// required, and then the optional ones that are not among them.
pub fn steady_state_rows_to_evaluate(
    required_rows: Vec<String>,
    optional_rows: &Vec<String>,
) -> (r: Vec<String>)
    ensures
        text::texts(r@) == with_optional(
            or_default(text::texts(required_rows@), default_steady_state_rows_spec()),
            text::texts(optional_rows@),
            optional_rows@.len(),
        ),
{
    let mut rows: Vec<String> = if required_rows.len() == 0 {
        default_steady_state_rows()
    } else {
        required_rows
    };
    let ghost start = text::texts(rows@);
    let ghost optional = text::texts(optional_rows@);
    let mut i: usize = 0;
    while i < optional_rows.len()
        invariant
            i <= optional_rows@.len(),
            optional == text::texts(optional_rows@),
            text::texts(rows@) == with_optional(start, optional, i as nat),
        decreases optional_rows@.len() - i,
    {
        broadcast use text::lemma_texts_push;

        assert(optional[i as int] == optional_rows@[i as int]@);
        if !holds_text(&rows, optional_rows[i].as_str()) {
            rows.push(optional_rows[i].clone());
        }
        i = i + 1;
    }
    rows
}

/// Every row that is required and every row that is optional is judged.
pub proof fn lemma_all_rows_judged(rows: Seq<Seq<char>>, optional: Seq<Seq<char>>, n: nat)
    requires
        n <= optional.len(),
    ensures
        forall|k: int|
            0 <= k < rows.len() ==> with_optional(rows, optional, n).contains(#[trigger] rows[k]),
        forall|k: int|
            0 <= k < n ==> with_optional(rows, optional, n).contains(#[trigger] optional[k]),
    decreases n,
{
    if n > 0 {
        lemma_all_rows_judged(rows, optional, (n - 1) as nat);
        let before = with_optional(rows, optional, (n - 1) as nat);
        let after = with_optional(rows, optional, n);
        assert forall|x: Seq<char>| before.contains(x) implies after.contains(x) by {
            let j = choose|j: int| 0 <= j < before.len() && before[j] == x;
            assert(after[j] == x);
        }
        assert(after.contains(optional[n - 1])) by {
            if !before.contains(optional[n - 1]) {
                assert(after[after.len() - 1] == optional[n - 1]);
            }
        }
    }
}

/// The rows that run by default are the rows that the perf gate judges by default.
pub proof fn lemma_default_rows_match()
    ensures
        default_steady_state_rows_spec() == workload::default_workloads_spec().map_values(
            |w: SteadyStateWorkload| w.name_text(),
        ),
{
    assert(default_steady_state_rows_spec() =~= workload::default_workloads_spec().map_values(
        |w: SteadyStateWorkload| w.name_text(),
    ));
}

/// No row of the steady-state suite is accepted by the CSV gate.
pub proof fn lemma_steady_state_rows_are_kept_apart(w: SteadyStateWorkload)
    ensures
        gate::names_steady_state(w.name_text()),
{
}

/// The files and the settings of the steady-state gate.
pub struct SteadyStatePlan {
    pub baseline: String,
    pub current: String,
    pub config: SteadyStateGateConfig,
}

/// Whether an input of the CSV gate is given.
pub open spec fn has_csv_input(args: GateArgs) -> bool {
    ||| args.baseline_sync is Some
    ||| args.current_sync is Some
    ||| args.baseline_nosync is Some
    ||| args.current_nosync is Some
    ||| args.fjall_sync is Some
    ||| args.baseline_latency_sync is Some
    ||| args.current_latency_sync is Some
    ||| args.rows@.len() > 0
    ||| args.ratio_rows@.len() > 0
}

/// Why the steady-state gate cannot be run, if it cannot.
pub open spec fn steady_state_args_error(args: GateArgs) -> Option<Seq<char>> {
    if args.baseline_steady_state_json is None {
        Some("--baseline-steady-state-json is required for steady-state mode"@)
    } else if args.current_steady_state_json is None {
        Some("--current-steady-state-json is required for steady-state mode"@)
    } else if has_csv_input(args) {
        Some("steady-state mode cannot be combined with legacy CRUD CSV inputs"@)
    } else {
        None
    }
}

/// What the steady-state gate is asked to do.
pub fn steady_state_plan(args: GateArgs) -> (r: Result<SteadyStatePlan, Failure>)
    ensures
        match (r, steady_state_args_error(args)) {
            (Ok(plan), None) => {
                &&& args.baseline_steady_state_json == Some(plan.baseline)
                &&& args.current_steady_state_json == Some(plan.current)
                &&& text::texts(plan.config.rows@) == with_optional(
                    or_default(
                        text::texts(args.steady_state_rows@),
                        default_steady_state_rows_spec(),
                    ),
                    text::texts(args.optional_steady_state_rows@),
                    args.optional_steady_state_rows@.len(),
                )
                &&& plan.config.optional_rows == args.optional_steady_state_rows
                &&& plan.config.max_ops_regression_pct == args.max_ops_regression_pct
                &&& plan.config.max_latency_regression_pct == args.max_latency_regression_pct
                &&& plan.config.allow_database_mismatch == args.allow_database_mismatch
            },
            (Err(e), Some(t)) => e@ == t,
            _ => false,
        },
{
    let csv: bool = args.baseline_sync.is_some() || args.current_sync.is_some()
        || args.baseline_nosync.is_some() || args.current_nosync.is_some()
        || args.fjall_sync.is_some() || args.baseline_latency_sync.is_some()
        || args.current_latency_sync.is_some() || args.rows.len() > 0 || args.ratio_rows.len() > 0;
    let baseline: String = match args.baseline_steady_state_json {
        Some(path) => path,
        None => {
            return Err(
                Failure::new(
                    "--baseline-steady-state-json is required for steady-state mode".to_owned(),
                ),
            );
        },
    };
    let current: String = match args.current_steady_state_json {
        Some(path) => path,
        None => {
            return Err(
                Failure::new(
                    "--current-steady-state-json is required for steady-state mode".to_owned(),
                ),
            );
        },
    };
    if csv {
        return Err(
            Failure::new(
                "steady-state mode cannot be combined with legacy CRUD CSV inputs".to_owned(),
            ),
        );
    }
    let rows: Vec<String> = steady_state_rows_to_evaluate(
        args.steady_state_rows,
        &args.optional_steady_state_rows,
    );
    Ok(
        SteadyStatePlan {
            baseline,
            current,
            config: SteadyStateGateConfig {
                rows,
                optional_rows: args.optional_steady_state_rows,
                max_ops_regression_pct: args.max_ops_regression_pct,
                max_latency_regression_pct: args.max_latency_regression_pct,
                allow_database_mismatch: args.allow_database_mismatch,
            },
        },
    )
}

/// A table of the CSV gate, in the order in which they are read.
#[derive(Clone, Copy, Debug, PartialEq, Eq, Structural)]
pub enum CsvInput {
    BaselineSync,
    CurrentSync,
    BaselineNosync,
    CurrentNosync,
    FjallSync,
    BaselineLatencySync,
    CurrentLatencySync,
}

/// The paths of the tables of the CSV gate.
pub struct CsvPaths {
    pub baseline_sync: Option<String>,
    pub current_sync: Option<String>,
    pub baseline_nosync: Option<String>,
    pub current_nosync: Option<String>,
    pub fjall_sync: Option<String>,
    pub baseline_latency_sync: Option<String>,
    pub current_latency_sync: Option<String>,
}

/// The tables and the settings of the CSV gate.
pub struct CsvPlan {
    pub paths: CsvPaths,
    pub config: GateConfig,
}

/// What the CSV gate is asked to do.
pub fn csv_plan(args: GateArgs) -> (r: CsvPlan)
    ensures
        text::texts(r.config.rows@) == or_default(text::texts(args.rows@), default_rows_spec()),
        text::texts(r.config.ratio_rows@) == or_default(
            text::texts(args.ratio_rows@),
            default_ratio_rows_spec(),
        ),
        r.config.max_sync_regression_pct == args.max_sync_regression_pct,
        r.config.min_ratio_improvements == args.min_ratio_improvements,
        r.config.max_latency_regression_pct == args.max_latency_regression_pct,
        r.paths == (CsvPaths {
            baseline_sync: args.baseline_sync,
            current_sync: args.current_sync,
            baseline_nosync: args.baseline_nosync,
            current_nosync: args.current_nosync,
            fjall_sync: args.fjall_sync,
            baseline_latency_sync: args.baseline_latency_sync,
            current_latency_sync: args.current_latency_sync,
        }),
{
    let rows: Vec<String> = if args.rows.len() == 0 {
        default_rows()
    } else {
        args.rows
    };
    let ratio_rows: Vec<String> = if args.ratio_rows.len() == 0 {
        default_ratio_rows()
    } else {
        args.ratio_rows
    };
    CsvPlan {
        paths: CsvPaths {
            baseline_sync: args.baseline_sync,
            current_sync: args.current_sync,
            baseline_nosync: args.baseline_nosync,
            current_nosync: args.current_nosync,
            fjall_sync: args.fjall_sync,
            baseline_latency_sync: args.baseline_latency_sync,
            current_latency_sync: args.current_latency_sync,
        },
        config: GateConfig {
            rows,
            ratio_rows,
            max_sync_regression_pct: args.max_sync_regression_pct,
            min_ratio_improvements: args.min_ratio_improvements,
            max_latency_regression_pct: args.max_latency_regression_pct,
        },
    }
}

impl CsvInput {
    /// The flag of a table that must be given.
    pub open spec fn required_flag(self) -> Option<Seq<char>> {
        match self {
            CsvInput::BaselineSync => Some("--baseline-sync"@),
            CsvInput::CurrentSync => Some("--current-sync"@),
            CsvInput::BaselineNosync => Some("--baseline-nosync"@),
            CsvInput::CurrentNosync => Some("--current-nosync"@),
            _ => None,
        }
    }

    pub open spec fn given(self, paths: CsvPaths) -> Option<String> {
        match self {
            CsvInput::BaselineSync => paths.baseline_sync,
            CsvInput::CurrentSync => paths.current_sync,
            CsvInput::BaselineNosync => paths.baseline_nosync,
            CsvInput::CurrentNosync => paths.current_nosync,
            CsvInput::FjallSync => paths.fjall_sync,
            CsvInput::BaselineLatencySync => paths.baseline_latency_sync,
            CsvInput::CurrentLatencySync => paths.current_latency_sync,
        }
    }
}

fn or_required(path: &Option<String>, flag: &str) -> (r: Result<Option<String>, Failure>)
    ensures
        match (r, *path) {
            (Ok(p), Some(q)) => p matches Some(t) && t@ == q@,
            (Err(e), None) => e@ == flag@ + " is required"@,
            _ => false,
        },
{
    match path {
        Some(p) => Ok(Some(p.clone())),
        None => Err(Failure::new(cat2(flag, " is required"))),
    }
}

fn optional_path(path: &Option<String>) -> (r: Result<Option<String>, Failure>)
    ensures
        match (r, *path) {
            (Ok(Some(p)), Some(q)) => p@ == q@,
            (Ok(None), None) => true,
            _ => false,
        },
{
    match path {
        Some(p) => Ok(Some(p.clone())),
        None => Ok(None),
    }
}

/// The path of a table; one that must be given is asked for where it is not.
pub fn csv_input(paths: &CsvPaths, input: CsvInput) -> (r: Result<Option<String>, Failure>)
    ensures
        match (r, input.given(*paths)) {
            (Ok(Some(p)), Some(q)) => p@ == q@,
            (Ok(None), None) => input.required_flag() is None,
            (Err(e), None) => input.required_flag() matches Some(flag) && e@ == flag
                + " is required"@,
            _ => false,
        },
{
    match input {
        CsvInput::BaselineSync => or_required(&paths.baseline_sync, "--baseline-sync"),
        CsvInput::CurrentSync => or_required(&paths.current_sync, "--current-sync"),
        CsvInput::BaselineNosync => or_required(&paths.baseline_nosync, "--baseline-nosync"),
        CsvInput::CurrentNosync => or_required(&paths.current_nosync, "--current-nosync"),
        CsvInput::FjallSync => optional_path(&paths.fjall_sync),
        CsvInput::BaselineLatencySync => optional_path(&paths.baseline_latency_sync),
        CsvInput::CurrentLatencySync => optional_path(&paths.current_latency_sync),
    }
}

} // verus!
