//! Single lines that a run prints.
use crate::operation::Scan;
use crate::run;
use crate::settings;
use crate::suite;
use crate::text;
use crate::vector;
use crate::workload::SteadyStateWorkload;
use vstd::prelude::*;

verus! {

/// The lines about a steady-state row name it: its heading, the warning about a removal that is not
/// supported, and the warning about one that failed, with its causes.
pub proof fn lemma_row_notices(w: SteadyStateWorkload, chain: Seq<char>)
    ensures
        suite::heading_spec(w) == "Steady-state \u{b7} "@ + w.name_text(),
        suite::skipped_cleanup(w) == "steady-state pre-run cleanup for "@ + w.name_text()
            + " is unsupported; continuing"@,
        suite::failed_recovery(w, chain) == "steady-state error cleanup for "@ + w.name_text()
            + " failed: "@ + chain,
{
}

/// The line before a run tells how many clients there are; a scan that cannot be run is refused by its
/// name and its field, and one that is skipped by its name and the cause.
pub proof fn lemma_run_notices(clients: u32, scan: Scan, name: Seq<char>, cause: Seq<char>)
    ensures
        run::announcement_text(clients) == "Setting up the datastore with "@ + text::decimal(
            clients as nat,
        ) + " clients"@,
        scan.vector_query matches Some(query) ==> run::refusal_text(scan) == "scan `"@ + scan.name@
            + "`: vector_query.field `"@ + query.field@
            + "` must be a `vector:<dim>` column in the schema"@,
        vector::skip_line(name, cause) == "vector holdout: skipping scan `"@ + name + "` ("@ + cause
            + ")"@,
{
}

/// An environment switch is on by the words for it alone.
pub proof fn lemma_switches(value: Seq<char>)
    ensures
        settings::switched_on(value) <==> value == "on"@ || value == "yes"@ || value == "true"@
            || value == "1"@,
{
}

} // verus!
