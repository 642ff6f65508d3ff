//! What the perf gate is asked to do.
use crate::mode;
use crate::mode::{CsvInput, CsvPaths, GateArgs};
use vstd::prelude::*;

verus! {

/// Whether a table, a CSV row or a ratio row is given.
pub open spec fn gives_csv(args: GateArgs) -> bool {
    ||| args.rows@.len() > 0
    ||| args.ratio_rows@.len() > 0
    ||| args.baseline_sync is Some
    ||| args.baseline_nosync is Some
    ||| args.baseline_latency_sync is Some
    ||| args.current_sync is Some
    ||| args.current_nosync is Some
    ||| args.current_latency_sync is Some
    ||| args.fjall_sync is Some
}

/// The steady-state gate is asked for where any of its flags is given, and can be run exactly where
/// both of its artifacts and nothing of the CSV gate is given.
pub proof fn lemma_steady_state_asked(args: GateArgs)
    ensures
        !mode::wants_steady_state(args) <==> {
            &&& args.baseline_steady_state_json is None
            &&& args.current_steady_state_json is None
            &&& args.steady_state_rows@.len() == 0
            &&& args.optional_steady_state_rows@.len() == 0
            &&& !args.allow_database_mismatch
        },
        mode::steady_state_args_error(args) is None <==> {
            &&& args.baseline_steady_state_json is Some
            &&& args.current_steady_state_json is Some
            &&& !gives_csv(args)
        },
        args.baseline_steady_state_json is None ==> mode::steady_state_args_error(args) == Some(
            "--baseline-steady-state-json is required for steady-state mode"@,
        ),
        args.baseline_steady_state_json is Some && args.current_steady_state_json is None
            ==> mode::steady_state_args_error(args) == Some(
            "--current-steady-state-json is required for steady-state mode"@,
        ),
{
}

/// The rows to judge begin with the required ones in their order; then come the optional ones, in
/// theirs, that are not among them. No row is added twice, and none that was not asked for.
pub proof fn lemma_rows_to_judge(rows: Seq<Seq<char>>, optional: Seq<Seq<char>>, n: nat)
    requires
        n <= optional.len(),
    ensures
        ({
            let all = mode::with_optional(rows, optional, n);
            &&& rows.is_prefix_of(all)
            &&& rows.no_duplicates() ==> all.no_duplicates()
            &&& forall|i: int|
                0 <= i < all.len() ==> rows.contains(#[trigger] all[i]) || optional.contains(all[i])
            &&& forall|i: int|
                rows.len() <= i < all.len() ==> !rows.contains(#[trigger] all[i])
        }),
    decreases n,
{
    if n > 0 {
        lemma_rows_to_judge(rows, optional, (n - 1) as nat);
        let before = mode::with_optional(rows, optional, (n - 1) as nat);
        let all = mode::with_optional(rows, optional, n);
        assert(optional.contains(optional[n - 1]));
        assert(rows =~= before.take(rows.len() as int));
        assert(all.take(rows.len() as int) =~= rows);
        if !before.contains(optional[n - 1]) {
            assert forall|i: int| rows.len() <= i < all.len() implies !rows.contains(
                #[trigger] all[i],
            ) by {
                if i == all.len() - 1 && rows.contains(all[i]) {
                    let j = choose|j: int| 0 <= j < rows.len() && rows[j] == all[i];
                    assert(before[j] == rows[j]);
                    assert(before.contains(all[i]));
                } else if i < all.len() - 1 {
                    assert(all[i] == before[i]);
                }
            }
            assert forall|i: int| 0 <= i < all.len() implies rows.contains(#[trigger] all[i])
                || optional.contains(all[i]) by {
                if i < before.len() {
                    assert(all[i] == before[i]);
                }
            }
        }
    } else {
        assert forall|i: int| 0 <= i < rows.len() implies rows.contains(#[trigger] rows[i]) by {}
        assert(rows =~= rows.take(rows.len() as int));
    }
}

/// The default ratio rows are among the default rows of the CSV gate.
pub proof fn lemma_default_ratio_rows()
    ensures
        forall|i: int|
            0 <= i < mode::default_ratio_rows_spec().len() ==> mode::default_rows_spec().contains(
                #[trigger] mode::default_ratio_rows_spec()[i],
            ),
{
    let rows = mode::default_rows_spec();
    assert(rows[0] == "put_c"@);
    assert(rows[2] == "batch_create_1000"@);
    assert(rows[4] == "batch_delete_1000"@);
}

/// Each table of the CSV gate comes from the flag of its name; the four plain ones must be given,
/// the others may be.
pub proof fn lemma_tables_by_flag(paths: CsvPaths, input: CsvInput)
    ensures
        CsvInput::BaselineSync.given(paths) == paths.baseline_sync,
        CsvInput::CurrentSync.given(paths) == paths.current_sync,
        CsvInput::BaselineNosync.given(paths) == paths.baseline_nosync,
        CsvInput::CurrentNosync.given(paths) == paths.current_nosync,
        CsvInput::FjallSync.given(paths) == paths.fjall_sync,
        CsvInput::BaselineLatencySync.given(paths) == paths.baseline_latency_sync,
        CsvInput::CurrentLatencySync.given(paths) == paths.current_latency_sync,
        input.required_flag() is None <==> input is FjallSync || input is BaselineLatencySync
            || input is CurrentLatencySync,
        input.required_flag() matches Some(flag) ==> flag == match input {
            CsvInput::BaselineSync => "--baseline-sync"@,
            CsvInput::BaselineNosync => "--baseline-nosync"@,
            CsvInput::CurrentSync => "--current-sync"@,
            _ => "--current-nosync"@,
        },
{
}

/// A list of rows that is given is taken as it is.
pub proof fn lemma_given_rows(given: Seq<Seq<char>>, fallback: Seq<Seq<char>>)
    ensures
        given.len() > 0 ==> mode::or_default(given, fallback) == given,
        given.len() == 0 ==> mode::or_default(given, fallback) == fallback,
{
}

} // verus!
