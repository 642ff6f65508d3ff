//! A timed phase: which records its samples touch.
use crate::operation::{BenchmarkOperation, Catalog};
use crate::phase;
use crate::phase::{ClientCall, PhaseNote, Progress, TookNote};
use vstd::prelude::*;

verus! {

/// The key that a call on a single record asks for.
pub open spec fn key_of(call: ClientCall) -> Option<u32> {
    match call {
        ClientCall::Create { key } => Some(key),
        ClientCall::Read { key } => Some(key),
        ClientCall::Update { key } => Some(key),
        ClientCall::Delete { key } => Some(key),
        _ => None,
    }
}

/// Whether an operation works on one record per sample.
pub open spec fn on_records(op: BenchmarkOperation) -> bool {
    op is Create || op is Read || op is Update || op is Delete
}

/// A sample of a phase on records asks for the record with its number, by a call of the phase's own
/// kind.
pub proof fn lemma_record_calls(op: BenchmarkOperation, sample: u32, samples: u32, queries: usize)
    requires
        on_records(op),
    ensures
        ({
            let call = phase::call_spec(op, sample, samples, queries);
            &&& key_of(call) == Some(sample)
            &&& op is Create <==> call is Create
            &&& op is Read <==> call is Read
            &&& op is Update <==> call is Update
            &&& op is Delete <==> call is Delete
        }),
{
}

/// Over the samples that a phase hands out, a phase on records asks for each of the records
/// `0..samples` once: no two samples share a record, and every record has its sample.
pub proof fn lemma_phase_touches_each_record_once(op: BenchmarkOperation, samples: u32, queries: usize)
    requires
        on_records(op),
    ensures
        forall|i: nat, j: nat|
            #![trigger Progress::start().claimed_times(i), Progress::start().claimed_times(j)]
            i < samples && j < samples && i != j ==> {
                let a = Progress::start().claimed_times(i).next_sample(samples);
                let b = Progress::start().claimed_times(j).next_sample(samples);
                &&& a is Some && b is Some
                &&& key_of(phase::call_spec(op, a->0, samples, queries)) != key_of(
                    phase::call_spec(op, b->0, samples, queries),
                )
            },
        forall|record: u32|
            record < samples ==> {
                let given = #[trigger] Progress::start().claimed_times(record as nat).next_sample(
                    samples,
                );
                given is Some && key_of(phase::call_spec(op, given->0, samples, queries)) == Some(
                    record,
                )
            },
{
    assert forall|i: nat, j: nat|
        #![trigger Progress::start().claimed_times(i), Progress::start().claimed_times(j)]
        i < samples && j < samples && i != j implies {
        let a = Progress::start().claimed_times(i).next_sample(samples);
        let b = Progress::start().claimed_times(j).next_sample(samples);
        &&& a is Some && b is Some
        &&& key_of(phase::call_spec(op, a->0, samples, queries)) != key_of(
            phase::call_spec(op, b->0, samples, queries),
        )
    } by {
        phase::lemma_samples_in_order(i, samples);
        phase::lemma_samples_in_order(j, samples);
    }
    assert forall|record: u32| record < samples implies {
        let given = #[trigger] Progress::start().claimed_times(record as nat).next_sample(samples);
        given is Some && key_of(phase::call_spec(op, given->0, samples, queries)) == Some(record)
    } by {
        phase::lemma_samples_in_order(record as nat, samples);
    }
}

/// What one phase on records stores, the others find: the same sample asks for the same record in
/// each of them.
pub proof fn lemma_phases_share_records(
    a: BenchmarkOperation,
    b: BenchmarkOperation,
    sample: u32,
    samples: u32,
    queries: usize,
)
    requires
        on_records(a),
        on_records(b),
    ensures
        key_of(phase::call_spec(a, sample, samples, queries)) == key_of(
            phase::call_spec(b, sample, samples, queries),
        ),
        key_of(phase::call_spec(a, sample, samples, queries)) is Some,
{
}

/// The scan and the context of a call, where it has them.
pub open spec fn scan_of(call: ClientCall) -> Option<usize> {
    match call {
        ClientCall::Scan { scan, .. } => Some(scan),
        ClientCall::VectorScan { scan, .. } => Some(scan),
        ClientCall::ScanWithWrites { scan, .. } => Some(scan),
        ClientCall::BuildIndex { scan } => Some(scan),
        ClientCall::BuildVectorIndex { scan, .. } => Some(scan),
        ClientCall::DropIndex { scan } => Some(scan),
        _ => None,
    }
}

/// A call on a scan is on the scan of its operation, in the same context and of the same kind; a
/// vector search goes through its query set round after round.
pub proof fn lemma_scan_calls(op: BenchmarkOperation, sample: u32, samples: u32, queries: usize)
    requires
        op is VectorScan ==> queries > 0,
    ensures
        ({
            let call = phase::call_spec(op, sample, samples, queries);
            &&& scan_of(call) == op.scan_position()
            &&& op is RemoveIndex <==> call is DropIndex
            &&& op matches BenchmarkOperation::BuildVectorIndex { dim, .. } ==> (
            call matches ClientCall::BuildVectorIndex { dim: d, .. } && d == dim)
            &&& op is BuildIndex <==> call is BuildIndex
            &&& op matches BenchmarkOperation::Scan { context, .. } ==> (
            call matches ClientCall::Scan { context: x, .. } && x == context)
            &&& op matches BenchmarkOperation::ScanWithWrites { context, writes, .. } ==> (
            call matches ClientCall::ScanWithWrites { context: x, writes: w, sample: s, samples: n, .. }
                && x == context && w == writes && s == sample && n == samples)
            &&& op matches BenchmarkOperation::VectorScan { context, .. } ==> (
            call matches ClientCall::VectorScan { context: x, query, .. } && x == context && query
                < queries && exists|round: int| sample == #[trigger] (round * queries) + query)
        }),
{
    if op is VectorScan {
        vstd::arithmetic::div_mod::lemma_fundamental_div_mod(sample as int, queries as int);
        vstd::arithmetic::div_mod::lemma_mod_bound(sample as int, queries as int);
        let round = sample as int / queries as int;
        let query = sample as int % queries as int;
        assert(round * queries + query == sample) by (nonlinear_arith)
            requires
                sample == queries * round + query,
        ;
    }
}

/// A call on a batch is on the batch of its operation, for the sample, and of the same kind.
pub proof fn lemma_batch_calls(op: BenchmarkOperation, sample: u32, samples: u32, queries: usize)
    ensures
        op matches BenchmarkOperation::BatchCreate { batch } ==> (phase::call_spec(
            op,
            sample,
            samples,
            queries,
        ) matches ClientCall::BatchCreate { batch: b, sample: s } && b == batch && s == sample),
        op matches BenchmarkOperation::BatchRead { batch } ==> (phase::call_spec(
            op,
            sample,
            samples,
            queries,
        ) matches ClientCall::BatchRead { batch: b, sample: s } && b == batch && s == sample),
        op matches BenchmarkOperation::BatchUpdate { batch } ==> (phase::call_spec(
            op,
            sample,
            samples,
            queries,
        ) matches ClientCall::BatchUpdate { batch: b, sample: s } && b == batch && s == sample),
        op matches BenchmarkOperation::BatchDelete { batch } ==> (phase::call_spec(
            op,
            sample,
            samples,
            queries,
        ) matches ClientCall::BatchDelete { batch: b, sample: s } && b == batch && s == sample),
{
}

/// Once a worker has failed no sample is handed out any more, and asking changes nothing.
pub proof fn lemma_failure_stops_the_phase(p: Progress, samples: u32, n: nat)
    requires
        p.error,
    ensures
        p.claimed_times(n) == p,
        p.claimed_times(n).next_sample(samples) is None,
    decreases n,
{
    if n > 0 {
        lemma_failure_stops_the_phase(p, samples, (n - 1) as nat);
    }
}

/// A worker that found the operation unsupported stops nobody: without a failure the next sample is
/// handed out as long as there is one.
pub proof fn lemma_unsupported_stops_nobody(p: Progress, samples: u32)
    requires
        !p.error,
    ensures
        p.next_sample(samples) is Some <==> p.current < samples,
        p.current < samples ==> p.next_sample(samples) == Some(p.current),
{
}

/// The line about a phase names the context of a scan, with its share of writes where it has one,
/// and the label of anything else; and exactly the scans and the indexes of columns are closed by a
/// line with their marker label and the time, where markers are printed.
pub proof fn lemma_took_lines(op: BenchmarkOperation, c: Catalog, emit: bool, took: Seq<char>)
    ensures
        ({
            let notes = phase::took_notes(op, c, emit, took);
            let closed = op is Scan || op is ScanWithWrites || op is BuildIndex || op is RemoveIndex;
            &&& notes.len() == if emit && closed {
                2int
            } else {
                1
            }
            &&& emit && closed ==> notes[1] == (PhaseNote::Say {
                line: op.marker_text(c) + " took "@ + took,
            })
            &&& notes[0] matches PhaseNote::Took { took: note } && match note {
                TookNote::Scan { slug, write_ratio_percent } => {
                    &&& op is Scan || op is VectorScan || op is ScanWithWrites
                    &&& write_ratio_percent is Some <==> op is ScanWithWrites
                    &&& op matches BenchmarkOperation::ScanWithWrites { scan, writes, .. } ==> write_ratio_percent
                        == Some(
                        c.scans@[scan as int].with_writes@[writes as int].write_ratio_percent as nat,
                    )
                    &&& op matches BenchmarkOperation::Scan { context, .. } ==> slug
                        == crate::operation::slug_text(context)
                    &&& op matches BenchmarkOperation::VectorScan { context, .. } ==> slug
                        == crate::operation::slug_text(context)
                    &&& op matches BenchmarkOperation::ScanWithWrites { context, .. } ==> slug
                        == crate::operation::slug_text(context)
                },
                TookNote::Head { label } => {
                    &&& !(op is Scan || op is VectorScan || op is ScanWithWrites)
                    &&& label == op.label_text(c)
                },
            }
        }),
{
}

} // verus!
