//! One timed phase: how its workers share the samples, what each sample calls, and how the phase
//! ends.
use crate::failure::Failure;
use crate::operation;
use crate::operation::{
    phase_marker_label, scan_context_slug, BenchmarkOperation, Catalog, ScanContext,
};
use crate::recorder::Recorder;
use crate::run::Marker;
use crate::text;
use crate::text::{cat2, cat3, decimal_text, same_text};
use vstd::prelude::*;

verus! {

/// Whether an error says that the datastore does not support an operation: such an operation is
/// skipped, and the benchmark goes on.
pub open spec fn unsupported(reason: Seq<char>) -> bool {
    reason == "NotSupported"@
}

/// The error that marks an operation as unsupported.
pub fn not_supported_error() -> (r: &'static str)
    ensures
        unsupported(r@),
{
    "NotSupported"
}

pub fn is_unsupported(reason: &str) -> (r: bool)
    ensures
        r == unsupported(reason@),
{
    same_text(reason, "NotSupported")
}

/// What the workers of a phase share.
#[derive(Clone, Copy, Debug, PartialEq, Eq, Structural)]
pub struct Progress {
    /// Whether a worker has failed.
    pub error: bool,
    /// Whether a worker found the operation unsupported.
    pub skip: bool,
    /// The next sample to hand out.
    pub current: u32,
    /// The samples that are done.
    pub complete: u32,
}

impl Progress {
    pub open spec fn start() -> Self {
        Progress { error: false, skip: false, current: 0, complete: 0 }
    }

    /// The sample that a worker is handed.
    pub open spec fn next_sample(self, samples: u32) -> Option<u32> {
        if self.error || self.current >= samples {
            None
        } else {
            Some(self.current)
        }
    }

    /// The progress after a worker asked for a sample.
    pub open spec fn claimed(self) -> Self {
        if self.error {
            self
        } else {
            Progress { current: self.current.wrapping_add(1), ..self }
        }
    }

    /// The progress after workers asked `n` times.
    pub open spec fn claimed_times(self, n: nat) -> Self
        decreases n,
    {
        if n == 0 {
            self
        } else {
            self.claimed_times((n - 1) as nat).claimed()
        }
    }

    pub fn new() -> (r: Self)
        ensures
            r == Progress::start(),
    {
        Progress { error: false, skip: false, current: 0, complete: 0 }
    }

    /// Hands the next sample to a worker; none where all are handed out or a worker has failed.
    pub fn claim(&mut self, samples: u32) -> (r: Option<u32>)
        ensures
            r == old(self).next_sample(samples),
            *final(self) == old(self).claimed(),
    {
        if self.error {
            return None;
        }
        let sample: u32 = self.current;
        self.current = self.current.wrapping_add(1);
        if sample >= samples {
            None
        } else {
            Some(sample)
        }
    }

    /// Counts a sample as done; gives the position of the progress bar.
    pub fn finish_sample(&mut self, samples: u32) -> (r: u64)
        ensures
            r == if old(self).complete < samples {
                old(self).complete + 1
            } else {
                samples as int
            },
            *final(self) == (Progress {
                complete: old(self).complete.wrapping_add(1),
                ..*old(self)
            }),
    {
        let done: u32 = self.complete;
        self.complete = self.complete.wrapping_add(1);
        if done < samples {
            done as u64 + 1
        } else {
            samples as u64
        }
    }

    /// Notes how a worker that stopped with an error ended: an unsupported operation is to be
    /// skipped, any other error fails the phase. Tells whether it failed.
    pub fn worker_stopped(&mut self, reason: &str) -> (r: bool)
        ensures
            r == !unsupported(reason@),
            *final(self) == if unsupported(reason@) {
                Progress { skip: true, ..*old(self) }
            } else {
                Progress { error: true, ..*old(self) }
            },
    {
        if is_unsupported(reason) {
            self.skip = true;
            false
        } else {
            self.error = true;
            true
        }
    }
}

/// As long as no worker fails, the samples 0, 1, 2 and so on are handed out in order, each once, and
/// then no more.
pub proof fn lemma_samples_in_order(n: nat, samples: u32)
    requires
        n <= u32::MAX,
    ensures
        Progress::start().claimed_times(n).next_sample(samples) == if n < samples {
            Some(n as u32)
        } else {
            None
        },
{
    lemma_claims_counted(n);
}

proof fn lemma_claims_counted(n: nat)
    requires
        n <= u32::MAX,
    ensures
        Progress::start().claimed_times(n).current == n,
        !Progress::start().claimed_times(n).error,
    decreases n,
{
    if n > 0 {
        lemma_claims_counted((n - 1) as nat);
    }
}

/// What a worker asks of its client for one sample.
#[derive(Clone, Copy, Debug, PartialEq, Eq, Structural)]
pub enum ClientCall {
    /// Store a new value under the key.
    Create { key: u32 },
    Read { key: u32 },
    /// Store another value under the key.
    Update { key: u32 },
    Delete { key: u32 },
    Scan { scan: usize, context: ScanContext },
    /// Search with the query at the given place of the query set.
    VectorScan { scan: usize, context: ScanContext, query: usize },
    ScanWithWrites { scan: usize, context: ScanContext, writes: usize, sample: u32, samples: u32 },
    BuildIndex { scan: usize },
    BuildVectorIndex { scan: usize, dim: usize },
    DropIndex { scan: usize },
    BatchCreate { batch: usize, sample: u32 },
    BatchRead { batch: usize, sample: u32 },
    BatchUpdate { batch: usize, sample: u32 },
    BatchDelete { batch: usize, sample: u32 },
}

pub open spec fn call_spec(
    operation: BenchmarkOperation,
    sample: u32,
    samples: u32,
    queries: usize,
) -> ClientCall {
    match operation {
        BenchmarkOperation::Create => ClientCall::Create { key: sample },
        BenchmarkOperation::Read => ClientCall::Read { key: sample },
        BenchmarkOperation::Update => ClientCall::Update { key: sample },
        BenchmarkOperation::Delete => ClientCall::Delete { key: sample },
        BenchmarkOperation::Scan { scan, context } => ClientCall::Scan { scan, context },
        BenchmarkOperation::VectorScan { scan, context } => ClientCall::VectorScan {
            scan,
            context,
            query: (sample as int % queries as int) as usize,
        },
        BenchmarkOperation::ScanWithWrites { scan, context, writes } => {
            ClientCall::ScanWithWrites { scan, context, writes, sample, samples }
        },
        BenchmarkOperation::BuildIndex { scan } => ClientCall::BuildIndex { scan },
        BenchmarkOperation::BuildVectorIndex { scan, dim } => ClientCall::BuildVectorIndex {
            scan,
            dim,
        },
        BenchmarkOperation::RemoveIndex { scan } => ClientCall::DropIndex { scan },
        BenchmarkOperation::BatchCreate { batch } => ClientCall::BatchCreate { batch, sample },
        BenchmarkOperation::BatchRead { batch } => ClientCall::BatchRead { batch, sample },
        BenchmarkOperation::BatchUpdate { batch } => ClientCall::BatchUpdate { batch, sample },
        BenchmarkOperation::BatchDelete { batch } => ClientCall::BatchDelete { batch, sample },
    }
}

/// What a sample of an operation asks of the client; `queries` is the size of the query set of a
/// vector search.
pub fn client_call(
    operation: BenchmarkOperation,
    sample: u32,
    samples: u32,
    queries: usize,
) -> (r: ClientCall)
    requires
        operation is VectorScan ==> queries > 0,
    ensures
        r == call_spec(operation, sample, samples, queries),
        operation is Create ==> r == (ClientCall::Create { key: sample }),
        operation is Read ==> r == (ClientCall::Read { key: sample }),
        operation is Update ==> r == (ClientCall::Update { key: sample }),
        operation is Delete ==> r == (ClientCall::Delete { key: sample }),
        r matches ClientCall::VectorScan { query, .. } ==> query < queries,
{
    match operation {
        BenchmarkOperation::Create => ClientCall::Create { key: sample },
        BenchmarkOperation::Read => ClientCall::Read { key: sample },
        BenchmarkOperation::Update => ClientCall::Update { key: sample },
        BenchmarkOperation::Delete => ClientCall::Delete { key: sample },
        BenchmarkOperation::Scan { scan, context } => ClientCall::Scan { scan, context },
        BenchmarkOperation::VectorScan { scan, context } => ClientCall::VectorScan {
            scan,
            context,
            query: (sample as usize) % queries,
        },
        BenchmarkOperation::ScanWithWrites { scan, context, writes } => {
            ClientCall::ScanWithWrites { scan, context, writes, sample, samples }
        },
        BenchmarkOperation::BuildIndex { scan } => ClientCall::BuildIndex { scan },
        BenchmarkOperation::BuildVectorIndex { scan, dim } => ClientCall::BuildVectorIndex {
            scan,
            dim,
        },
        BenchmarkOperation::RemoveIndex { scan } => ClientCall::DropIndex { scan },
        BenchmarkOperation::BatchCreate { batch } => ClientCall::BatchCreate { batch, sample },
        BenchmarkOperation::BatchRead { batch } => ClientCall::BatchRead { batch, sample },
        BenchmarkOperation::BatchUpdate { batch } => ClientCall::BatchUpdate { batch, sample },
        BenchmarkOperation::BatchDelete { batch } => ClientCall::BatchDelete { batch, sample },
    }
}

/// A time of whole seconds; no time at all is told in the smallest unit.
pub open spec fn seconds_text(secs: u64) -> Seq<char> {
    text::decimal(secs as nat) + if secs == 0 {
        "ns"@
    } else {
        "s"@
    }
}

pub open spec fn timeout_spec(operation: BenchmarkOperation, c: Catalog, secs: u64) -> Seq<char> {
    operation.label_text(c) + " did not complete within "@ + seconds_text(secs)
}

/// The error of a sample that took longer than an operation may take.
pub fn timeout_text(operation: &BenchmarkOperation, catalog: &Catalog, secs: u64) -> (r: String)
    requires
        operation.known_to(*catalog),
    ensures
        r@ == timeout_spec(*operation, *catalog, secs),
{
    let unit: &str = if secs == 0 {
        "ns"
    } else {
        "s"
    };
    let time: String = cat2(decimal_text(secs as u128).as_str(), unit);
    cat3(operation.label(catalog).as_str(), " did not complete within ", time.as_str())
}

/// How a worker of a phase ended.
pub enum WorkerEnd {
    /// It went through its samples.
    Finished { recorder: Recorder },
    /// The operation is unsupported.
    Skipped,
    /// A sample failed.
    Failed,
    /// The task itself did not come to an end.
    Lost,
}

/// What a phase has gathered from its workers.
pub struct Phase {
    pub operation: BenchmarkOperation,
    pub recorder: Recorder,
}

pub open spec fn worker_failure(operation: BenchmarkOperation, c: Catalog) -> Seq<char> {
    operation.label_text(c) + " worker failed"@
}

pub open spec fn task_failure(operation: BenchmarkOperation, c: Catalog) -> Seq<char> {
    operation.label_text(c) + " task failed"@
}

impl Phase {
    pub fn new(operation: BenchmarkOperation) -> (r: Self)
        ensures
            r.operation == operation,
            r.recorder@ == vstd::multiset::Multiset::<u64>::empty(),
    {
        Phase { operation, recorder: Recorder::new() }
    }

    /// Takes in the end of a worker: its latencies, or the failure that ends the phase.
    pub fn join(&mut self, end: WorkerEnd, catalog: &Catalog) -> (r: Result<(), Failure>)
        requires
            old(self).operation.known_to(*catalog),
        ensures
            final(self).operation == old(self).operation,
            match end {
                WorkerEnd::Finished { recorder } => r is Ok && (old(self).recorder@.len()
                    + recorder@.len() <= u64::MAX ==> final(self).recorder@
                    == old(self).recorder@.add(recorder@)),
                WorkerEnd::Skipped => r is Ok && *final(self) == *old(self),
                WorkerEnd::Failed => *final(self) == *old(self) && (r matches Err(e)
                    && e@ == worker_failure(old(self).operation, *catalog)),
                WorkerEnd::Lost => *final(self) == *old(self) && (r matches Err(e)
                    && e@ == task_failure(old(self).operation, *catalog)),
            },
    {
        match end {
            WorkerEnd::Finished { recorder } => {
                self.recorder.merge(&recorder);
                Ok(())
            },
            WorkerEnd::Skipped => Ok(()),
            WorkerEnd::Failed => Err(
                Failure::new(cat2(self.operation.label(catalog).as_str(), " worker failed")),
            ),
            WorkerEnd::Lost => Err(
                Failure::new(cat2(self.operation.label(catalog).as_str(), " task failed")),
            ),
        }
    }
}

/// The line that opens a phase for profiling scripts.
pub open spec fn start_marker_spec(operation: BenchmarkOperation, c: Catalog) -> Seq<char> {
    operation.marker_text(c) + " starting"@
}

/// The line that opens a phase, where markers are printed.
pub fn start_marker(
    operation: &BenchmarkOperation,
    catalog: &Catalog,
    emit_phase_markers: bool,
) -> (r: Option<String>)
    requires
        operation.known_to(*catalog),
    ensures
        match r {
            Some(line) => emit_phase_markers && line@ == start_marker_spec(*operation, *catalog),
            None => !emit_phase_markers,
        },
{
    if emit_phase_markers {
        Some(cat2(phase_marker_label(operation, catalog).as_str(), " starting"))
    } else {
        None
    }
}

/// The line that tells how long a phase took.
pub enum TookLine {
    /// Of a scan: its context, and the share of writes where there are any.
    Scan { slug: &'static str, write_ratio_percent: Option<u32> },
    /// Of anything else: its label.
    Head { label: String },
}

pub open spec fn is_scan(operation: BenchmarkOperation) -> bool {
    operation is Scan || operation is VectorScan || operation is ScanWithWrites
}

pub open spec fn context_of(operation: BenchmarkOperation) -> ScanContext {
    match operation {
        BenchmarkOperation::Scan { context, .. } => context,
        BenchmarkOperation::VectorScan { context, .. } => context,
        BenchmarkOperation::ScanWithWrites { context, .. } => context,
        _ => ScanContext::WithoutIndex,
    }
}

/// What the line about a phase says: of a scan its context and the share of writes, of anything else
/// its label.
pub enum TookNote {
    Scan { slug: Seq<char>, write_ratio_percent: Option<nat> },
    Head { label: Seq<char> },
}

impl View for TookLine {
    type V = TookNote;

    open spec fn view(&self) -> TookNote {
        match *self {
            TookLine::Scan { slug, write_ratio_percent } => TookNote::Scan {
                slug: slug@,
                write_ratio_percent: match write_ratio_percent {
                    Some(ratio) => Some(ratio as nat),
                    None => None,
                },
            },
            TookLine::Head { label } => TookNote::Head { label: label@ },
        }
    }
}

pub open spec fn took_note(operation: BenchmarkOperation, c: Catalog) -> TookNote {
    if is_scan(operation) {
        TookNote::Scan {
            slug: operation::slug_text(context_of(operation)),
            write_ratio_percent: if operation is ScanWithWrites {
                Some(operation.ratio(c))
            } else {
                None
            },
        }
    } else {
        TookNote::Head { label: operation.label_text(c) }
    }
}

/// Which line tells how long the phase took.
pub fn took_line(operation: &BenchmarkOperation, catalog: &Catalog) -> (r: TookLine)
    requires
        operation.known_to(*catalog),
    ensures
        r@ == took_note(*operation, *catalog),
{
    match *operation {
        BenchmarkOperation::Scan { context, .. } => TookLine::Scan {
            slug: scan_context_slug(context),
            write_ratio_percent: None,
        },
        BenchmarkOperation::VectorScan { context, .. } => TookLine::Scan {
            slug: scan_context_slug(context),
            write_ratio_percent: None,
        },
        BenchmarkOperation::ScanWithWrites { context, scan, writes } => TookLine::Scan {
            slug: scan_context_slug(context),
            write_ratio_percent: Some(
                catalog.scans[scan].with_writes[writes].write_ratio_percent,
            ),
        },
        _ => TookLine::Head { label: operation.label(catalog) },
    }
}

/// The phases that are closed by a line for profiling scripts: scans with their writes, and indexes
/// on columns built or removed.
pub open spec fn needs_took_marker(operation: BenchmarkOperation) -> bool {
    operation is Scan || operation is ScanWithWrites || operation is BuildIndex || operation
        is RemoveIndex
}

pub open spec fn took_marker_spec(operation: BenchmarkOperation, c: Catalog, took: Seq<char>) -> Seq<
    char,
> {
    operation.marker_text(c) + " took "@ + took
}

/// The line that closes a phase for profiling scripts, where markers are printed and the phase has
/// one.
pub fn took_marker(
    operation: &BenchmarkOperation,
    catalog: &Catalog,
    emit_phase_markers: bool,
    took: &str,
) -> (r: Option<String>)
    requires
        operation.known_to(*catalog),
    ensures
        match r {
            Some(line) => emit_phase_markers && needs_took_marker(*operation) && line@
                == took_marker_spec(*operation, *catalog, took@),
            None => !(emit_phase_markers && needs_took_marker(*operation)),
        },
{
    let wanted: bool = match *operation {
        BenchmarkOperation::Scan { .. }
        | BenchmarkOperation::ScanWithWrites { .. }
        | BenchmarkOperation::BuildIndex { .. }
        | BenchmarkOperation::RemoveIndex { .. } => true,
        _ => false,
    };
    if emit_phase_markers && wanted {
        Some(cat3(phase_marker_label(operation, catalog).as_str(), " took ", took))
    } else {
        None
    }
}

/// What is left to do in a phase whose workers have ended.
pub enum PhaseStep {
    /// Tell how long it took.
    Took { took: TookLine },
    /// Print a line for profiling scripts.
    Say { line: String },
    /// Let the server settle.
    Settle,
}

/// A step without its text buffers.
pub enum PhaseNote {
    Took { took: TookNote },
    Say { line: Seq<char> },
    Settle,
}

impl View for PhaseStep {
    type V = PhaseNote;

    open spec fn view(&self) -> PhaseNote {
        match *self {
            PhaseStep::Took { took } => PhaseNote::Took { took: took@ },
            PhaseStep::Say { line } => PhaseNote::Say { line: line@ },
            PhaseStep::Settle => PhaseNote::Settle,
        }
    }
}

pub open spec fn notes(steps: Seq<PhaseStep>) -> Seq<PhaseNote> {
    Seq::new(steps.len(), |i: int| steps[i]@)
}

/// How a phase ends.
pub struct PhaseEnd {
    pub steps: Vec<PhaseStep>,
    /// Whether the phase has a result; an unsupported operation has none.
    pub kept: bool,
}

/// The lines about a phase.
pub open spec fn took_notes(
    operation: BenchmarkOperation,
    c: Catalog,
    emit_phase_markers: bool,
    took: Seq<char>,
) -> Seq<PhaseNote> {
    seq![PhaseNote::Took { took: took_note(operation, c) }] + if emit_phase_markers
        && needs_took_marker(operation) {
        seq![PhaseNote::Say { line: took_marker_spec(operation, c, took) }]
    } else {
        Seq::empty()
    }
}

/// What a phase with a result does before the next one starts.
pub open spec fn settle_notes(emit_phase_markers: bool) -> Seq<PhaseNote> {
    seq![PhaseNote::Settle] + if emit_phase_markers {
        seq![PhaseNote::Say { line: Marker::ServerIdle.line() }]
    } else {
        Seq::empty()
    }
}

/// Lets the server settle after a phase or a row, and says so where markers are printed.
pub fn settle_steps(emit_phase_markers: bool) -> (r: Vec<PhaseStep>)
    ensures
        notes(r@) == settle_notes(emit_phase_markers),
{
    let mut steps: Vec<PhaseStep> = Vec::new();
    steps.push(PhaseStep::Settle);
    if emit_phase_markers {
        steps.push(PhaseStep::Say { line: Marker::ServerIdle.text().to_owned() });
    }
    assert(notes(steps@) == settle_notes(emit_phase_markers));
    steps
}

impl Progress {
    /// What is left to do in the phase.
    pub open spec fn end_notes(
        self,
        operation: BenchmarkOperation,
        c: Catalog,
        emit_phase_markers: bool,
        took: Seq<char>,
    ) -> Seq<PhaseNote> {
        took_notes(operation, c, emit_phase_markers, took) + if self.skip {
            Seq::empty()
        } else {
            settle_notes(emit_phase_markers)
        }
    }

    /// Ends a phase whose workers have ended: what is left to do, in order, and whether there is a
    /// result. A phase in which a worker failed ends with an error.
    pub fn finish(
        &self,
        operation: &BenchmarkOperation,
        catalog: &Catalog,
        emit_phase_markers: bool,
        took: &str,
    ) -> (r: Result<PhaseEnd, Failure>)
        requires
            operation.known_to(*catalog),
        ensures
            match r {
                Ok(end) => {
                    &&& !self.error
                    &&& end.kept == !self.skip
                    &&& notes(end.steps@) == self.end_notes(
                        *operation,
                        *catalog,
                        emit_phase_markers,
                        took@,
                    )
                },
                Err(e) => self.error && e@ == "Task failure"@,
            },
    {
        if self.error {
            return Err(Failure::new("Task failure".to_owned()));
        }
        let mut steps: Vec<PhaseStep> = Vec::new();
        steps.push(PhaseStep::Took { took: took_line(operation, catalog) });
        if let Some(line) = took_marker(operation, catalog, emit_phase_markers, took) {
            steps.push(PhaseStep::Say { line });
        }
        assert(notes(steps@) == took_notes(*operation, *catalog, emit_phase_markers, took@));
        if !self.skip {
            let ghost said = steps@;
            let mut rest: Vec<PhaseStep> = settle_steps(emit_phase_markers);
            let ghost last = rest@;
            steps.append(&mut rest);
            assert(notes(said + last) =~= notes(said) + notes(last));
        }
        Ok(PhaseEnd { steps, kept: !self.skip })
    }
}

/// A phase tells how long it took before anything else; a phase with a result then lets the server
/// settle, and the line that says so, where markers are printed, is the last of all; a phase without
/// a result does neither.
pub proof fn lemma_took_before_idle(
    p: Progress,
    operation: BenchmarkOperation,
    c: Catalog,
    emit_phase_markers: bool,
    took: Seq<char>,
)
    ensures
        ({
            let left = p.end_notes(operation, c, emit_phase_markers, took);
            let told = took_notes(operation, c, emit_phase_markers, took).len() as int;
            &&& left.len() > 0
            &&& left[0] is Took
            &&& forall|i: int| 0 < i < left.len() ==> !(#[trigger] left[i] is Took)
            &&& forall|i: int| 0 <= i < left.len() && left[i] is Settle ==> i == told && !p.skip
            &&& !p.skip ==> told < left.len() && left[told] is Settle
            &&& !p.skip && emit_phase_markers ==> left.last() == (PhaseNote::Say {
                line: Marker::ServerIdle.line(),
            }) && left.len() == told + 2
            &&& p.skip ==> left.len() == told
        }),
{
}

/// Nanoseconds in which a first client must connect.
pub const CLIENT_TIMEOUT_NANOS: u128 = 60_000_000_000;

/// Seconds that the server is given to settle after a phase.
pub const QUIESCE_SECS: u64 = 1;

/// Whether to try for a client again after the given time.
pub fn may_wait(elapsed_nanos: u128) -> (r: bool)
    ensures
        r == (elapsed_nanos < CLIENT_TIMEOUT_NANOS),
{
    elapsed_nanos < CLIENT_TIMEOUT_NANOS
}

/// The error of a datastore that no client could reach.
pub fn no_client() -> (r: Failure)
    ensures
        r@ == "Can't create the client"@,
{
    Failure::new("Can't create the client".to_owned())
}

} // verus!
