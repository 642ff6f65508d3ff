//! What phases are called.
use crate::operation;
use crate::operation::{BenchmarkOperation, Catalog, ScanContext};
use crate::phase;
use crate::run;
use crate::run::{Heading, Marker};
use crate::text;
use vstd::prelude::*;
use vstd::utf8::*;

verus! {

/// The word for what an operation does.
pub open spec fn kind_of(op: BenchmarkOperation) -> Seq<char> {
    match op {
        BenchmarkOperation::Create => "Create"@,
        BenchmarkOperation::Read => "Read"@,
        BenchmarkOperation::Update => "Update"@,
        BenchmarkOperation::Delete => "Delete"@,
        BenchmarkOperation::VectorScan { .. } => "VectorScan"@,
        BenchmarkOperation::BuildIndex { .. } => "BuildIndex"@,
        BenchmarkOperation::BuildVectorIndex { .. } => "BuildVectorIndex"@,
        BenchmarkOperation::RemoveIndex { .. } => "RemoveIndex"@,
        BenchmarkOperation::BatchCreate { .. } => "BatchCreate"@,
        BenchmarkOperation::BatchRead { .. } => "BatchRead"@,
        BenchmarkOperation::BatchUpdate { .. } => "BatchUpdate"@,
        BenchmarkOperation::BatchDelete { .. } => "BatchDelete"@,
        _ => "Scan"@,
    }
}

pub open spec fn batch_of(op: BenchmarkOperation) -> Option<usize> {
    match op {
        BenchmarkOperation::BatchCreate { batch } => Some(batch),
        BenchmarkOperation::BatchRead { batch } => Some(batch),
        BenchmarkOperation::BatchUpdate { batch } => Some(batch),
        BenchmarkOperation::BatchDelete { batch } => Some(batch),
        _ => None,
    }
}

pub open spec fn context_of(op: BenchmarkOperation) -> Option<ScanContext> {
    match op {
        BenchmarkOperation::Scan { context, .. } => Some(context),
        BenchmarkOperation::VectorScan { context, .. } => Some(context),
        BenchmarkOperation::ScanWithWrites { context, .. } => Some(context),
        _ => None,
    }
}

/// A context is told by whether it has an index.
pub proof fn lemma_context_words(context: ScanContext)
    ensures
        operation::slug_text(context) == "indexed"@ <==> context == ScanContext::WithIndex,
        operation::slug_text(context) == "no-index"@ <==> context == ScanContext::WithoutIndex,
{
    reveal_strlit("indexed");
    reveal_strlit("no-index");
    assert("indexed"@.len() != "no-index"@.len());
}

proof fn lemma_joined(a: Seq<char>, b: Seq<char>, c: Seq<char>)
    ensures
        a + (b + c) == a + b + c,
{
    assert(a + (b + c) =~= a + b + c);
}

/// The label of an operation begins with what it does; a batch goes on with its name, a scan with its
/// context, a scan with writes also with their share, and nothing else goes on.
#[verifier::spinoff_prover]
pub proof fn lemma_labels_say(op: BenchmarkOperation, c: Catalog)
    ensures
        batch_of(op) matches Some(batch) ==> op.label_text(c) == kind_of(op) + "::"@
            + c.batches@[batch as int].name@,
        context_of(op) matches Some(context) ==> (!(op is ScanWithWrites) ==> op.label_text(c)
            == kind_of(op) + " :: "@ + operation::slug_text(context)),
        op matches BenchmarkOperation::ScanWithWrites { scan, context, writes } ==> op.label_text(c)
            == "Scan"@ + " :: "@ + operation::slug_text(context) + ", combined workload (ratio "@
            + text::decimal(
            c.scans@[scan as int].with_writes@[writes as int].write_ratio_percent as nat,
        ) + "%)"@,
        batch_of(op) is None && context_of(op) is None ==> op.label_text(c) == kind_of(op),
{
    reveal_strlit("BatchCreate::");
    reveal_strlit("BatchCreate");
    reveal_strlit("BatchRead::");
    reveal_strlit("BatchRead");
    reveal_strlit("BatchUpdate::");
    reveal_strlit("BatchUpdate");
    reveal_strlit("BatchDelete::");
    reveal_strlit("BatchDelete");
    reveal_strlit("::");
    reveal_strlit("Scan :: ");
    reveal_strlit("VectorScan :: ");
    reveal_strlit("Scan");
    reveal_strlit("VectorScan");
    reveal_strlit(" :: ");
    assert("BatchCreate::"@ =~= "BatchCreate"@ + "::"@);
    assert("BatchRead::"@ =~= "BatchRead"@ + "::"@);
    assert("BatchUpdate::"@ =~= "BatchUpdate"@ + "::"@);
    assert("BatchDelete::"@ =~= "BatchDelete"@ + "::"@);
    assert("Scan :: "@ =~= "Scan"@ + " :: "@);
    assert("VectorScan :: "@ =~= "VectorScan"@ + " :: "@);
}

/// The marker label of a scan or an index tells which scan it is: what is done, the id, the run name,
/// and for a scan the context with the share of writes where there are any.
#[verifier::spinoff_prover]
pub proof fn lemma_marker_labels_say(op: BenchmarkOperation, c: Catalog)
    ensures
        op.scan_position() is None ==> op.marker_text(c) == op.label_text(c),
        op.scan_position() matches Some(i) ==> {
            let scan = c.scans@[i as int];
            let head = kind_of(op) + " :: "@ + scan.id@ + " :: "@ + scan.name@;
            &&& context_of(op) is None ==> op.marker_text(c) == head
            &&& context_of(op) matches Some(context) ==> op.marker_text(c) == head + " :: "@
                + operation::slug_text(context) + if op is ScanWithWrites {
                ", writes "@ + text::decimal(op.ratio(c)) + "%"@
            } else {
                Seq::empty()
            }
        },
        op matches BenchmarkOperation::ScanWithWrites { scan, writes, .. } ==> op.ratio(c)
            == c.scans@[scan as int].with_writes@[writes as int].write_ratio_percent,
{
    reveal_strlit("Scan :: ");
    reveal_strlit("VectorScan :: ");
    reveal_strlit("BuildIndex :: ");
    reveal_strlit("BuildVectorIndex :: ");
    reveal_strlit("RemoveIndex :: ");
    reveal_strlit("Scan");
    reveal_strlit("VectorScan");
    reveal_strlit("BuildIndex");
    reveal_strlit("BuildVectorIndex");
    reveal_strlit("RemoveIndex");
    reveal_strlit(" :: ");
    assert("Scan :: "@ =~= "Scan"@ + " :: "@);
    assert("VectorScan :: "@ =~= "VectorScan"@ + " :: "@);
    assert("BuildIndex :: "@ =~= "BuildIndex"@ + " :: "@);
    assert("BuildVectorIndex :: "@ =~= "BuildVectorIndex"@ + " :: "@);
    assert("RemoveIndex :: "@ =~= "RemoveIndex"@ + " :: "@);
    if op is ScanWithWrites {
        let i = op.scan_position()->0 as int;
        let base = "Scan"@ + " :: "@ + c.scans@[i].id@ + " :: "@ + c.scans@[i].name@ + " :: "@
            + operation::slug_text(context_of(op)->0);
        lemma_joined(base, ", writes "@ + text::decimal(op.ratio(c)), "%"@);
        lemma_joined(base, ", writes "@, text::decimal(op.ratio(c)));
    } else if context_of(op) is Some {
        assert(op.marker_text(c) + Seq::<char>::empty() =~= op.marker_text(c));
    }
}

/// The lines around a phase carry its marker label; a failure carries its label.
pub proof fn lemma_phase_lines(op: BenchmarkOperation, c: Catalog, took: Seq<char>, secs: u64)
    ensures
        phase::start_marker_spec(op, c) == op.marker_text(c) + " starting"@,
        phase::took_marker_spec(op, c, took) == op.marker_text(c) + " took "@ + took,
        phase::worker_failure(op, c) == op.label_text(c) + " worker failed"@,
        phase::task_failure(op, c) == op.label_text(c) + " task failed"@,
        secs > 0 ==> phase::timeout_spec(op, c, secs) == op.label_text(c)
            + " did not complete within "@ + (text::decimal(secs as nat) + "s"@),
{
}

/// The marker lines of a run and the headings of its sections.
pub proof fn lemma_run_lines(marker: Marker, heading: Heading, c: Catalog)
    ensures
        match marker {
            Marker::BenchmarkStarting => marker.line() == "Benchmark starting"@,
            Marker::BenchmarkComplete => marker.line() == "Benchmark complete"@,
            Marker::CompactionStarting => marker.line() == "Compaction starting"@,
            Marker::ServerIdle => marker.line() == "Server idle"@,
        },
        match heading {
            Heading::Scan { scan } => heading.line(c) == "Scan \u{b7} "@ + c.scans@[scan as int].id@,
            Heading::RunName { scan } => heading.line(c) == c.scans@[scan as int].name@,
            Heading::Delete => heading.line(c) == "Delete"@,
            Heading::DeleteSkipped => heading.line(c) == "Delete (skipped)"@,
            Heading::Batches => heading.line(c) == "Batches"@,
        },
{
}

/// A label fits the progress bar: one of 72 bytes or fewer stays as it is, a longer one keeps its
/// first 71 bytes and ends in an ellipsis.
pub proof fn lemma_progress_fits(label: Seq<u8>)
    ensures
        label.len() <= 72 ==> operation::shortened(label) == label,
        label.len() > 72 ==> {
            let cut = operation::shortened(label);
            &&& cut.len() == 71 + encode_utf8("\u{2026}"@).len()
            &&& cut.take(71) == label.take(71)
            &&& cut.skip(71) == encode_utf8("\u{2026}"@)
        },
{
    if label.len() > 72 {
        let cut = operation::shortened(label);
        assert(cut.take(71) =~= label.take(71));
        assert(cut.skip(71) =~= encode_utf8("\u{2026}"@));
    }
}

/// The progress bar of a scan shows its context, with the share of writes where there are any; a
/// vector search says that it is one.
pub proof fn lemma_progress_says(op: BenchmarkOperation, c: Catalog)
    ensures
        context_of(op) is None ==> op.progress_text(c) == op.label_text(c),
        context_of(op) matches Some(context) ==> op.progress_text(c) == if op is VectorScan {
            "vector knn :: "@ + operation::slug_text(context)
        } else if op is ScanWithWrites {
            operation::slug_text(context) + ", writes "@ + text::decimal(op.ratio(c)) + "%"@
        } else {
            operation::slug_text(context)
        },
{
}

/// A run name is printed under a new section and wherever it changes, in a group of several runs; a
/// section begins with every new group.
pub proof fn lemma_headings_printed(scans: Seq<crate::operation::Scan>, i: int)
    requires
        0 <= i < scans.len() <= usize::MAX,
    ensures
        ({
            let head = run::scan_heading(scans, i);
            let section = i == 0 || scans[i - 1].spec_group != scans[i].spec_group;
            let named = scans[i].multi_run_spec && (section || scans[i - 1].name@
                != scans[i].name@);
            &&& section ==> head.len() > 0 && head[0].action == (run::Action::Head {
                heading: Heading::Scan { scan: i as usize },
            })
            &&& named ==> head.len() > 0 && head.last().action == (run::Action::Head {
                heading: Heading::RunName { scan: i as usize },
            })
            &&& head.len() == (if section {
                1int
            } else {
                0
            }) + (if named {
                1int
            } else {
                0
            })
        }),
{
}

} // verus!
