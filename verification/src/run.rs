//! The course of a benchmark run: which phases run in which order, and where their results go.
use crate::operation::{
    BatchOperation, BatchOperationType, BenchmarkOperation, Catalog, Scan, ScanContext,
    ScanWithWrites, VectorIndexStrategy,
};
use crate::settings::{Benchmark, Suite};
use crate::text;
use crate::text::{cat2, cat3, cat5, decimal_text, same_text};
use vstd::prelude::*;

verus! {

/// A schema column.
pub struct Column {
    pub name: String,
    /// The length of the vectors in a vector column.
    pub vector: Option<usize>,
}

/// A line that profiling scripts look for.
#[derive(Clone, Copy, Debug, PartialEq, Eq, Structural)]
pub enum Marker {
    BenchmarkStarting,
    BenchmarkComplete,
    CompactionStarting,
    ServerIdle,
}

/// A heading of the report.
#[derive(Clone, Copy, Debug, PartialEq, Eq, Structural)]
pub enum Heading {
    /// The section of a scan.
    Scan { scan: usize },
    /// The run name of a scan that has several runs.
    RunName { scan: usize },
    Delete,
    DeleteSkipped,
    Batches,
}

/// What a step does.
#[derive(Clone, Copy, Debug, PartialEq, Eq, Structural)]
pub enum Action {
    /// Nothing but filing an empty result.
    Nothing,
    /// Tell how many clients are set up.
    Announce,
    /// Start the datastore.
    Startup,
    /// Connect the clients.
    Connect,
    Mark { marker: Marker },
    Head { heading: Heading },
    /// Run the steady-state rows.
    SteadyState,
    /// Compact the datastore and report how long it took.
    Compact,
    /// Let the server settle.
    Quiesce,
    /// Build the query set of a vector scan.
    Queries { scan: usize },
    /// Time an operation, on the first client alone or on all.
    Operate { operation: BenchmarkOperation, lone: bool, samples: u32 },
    /// Stop: the vector field of the scan is no vector column.
    Refuse { scan: usize },
    /// Shut down the datastore.
    Shutdown,
}

/// When a step runs.
#[derive(Clone, Copy, Debug, PartialEq, Eq, Structural)]
pub enum Guard {
    Always,
    /// Where the current scan has a query set.
    Found,
    /// Where the index of the current scan was built.
    Built,
}

/// What a timed leg of a scan did.
#[derive(Clone, Copy, Debug, PartialEq, Eq, Structural)]
pub enum ScanWorkload {
    Read,
    ReadWrite { write_ratio_percent: u32 },
}

/// Where the result of a step goes.
#[derive(Clone, Copy, Debug, PartialEq, Eq, Structural)]
pub enum Slot {
    Nowhere,
    Creates,
    Reads,
    Updates,
    Deletes,
    /// Opens the result of a scan.
    OpenScan { scan: usize },
    /// A leg of the current scan.
    Leg { workload: ScanWorkload, indexed: bool },
    IndexBuild,
    IndexRemove,
    Batch { batch: usize },
}

/// One step of a run.
#[derive(Clone, Copy, Debug, PartialEq, Eq, Structural)]
pub struct Step {
    pub guard: Guard,
    pub action: Action,
    pub slot: Slot,
}

pub open spec fn always(action: Action) -> Step {
    Step { guard: Guard::Always, action, slot: Slot::Nowhere }
}

/// A timed step of all clients.
pub open spec fn timed(guard: Guard, operation: BenchmarkOperation, samples: u32, slot: Slot) -> Step {
    Step { guard, action: Action::Operate { operation, lone: false, samples }, slot }
}

/// A timed step of the first client alone, done once.
pub open spec fn once(guard: Guard, operation: BenchmarkOperation, slot: Slot) -> Step {
    Step { guard, action: Action::Operate { operation, lone: true, samples: 1 }, slot }
}

/// A step that only files an empty result.
pub open spec fn skipped(slot: Slot) -> Step {
    Step { guard: Guard::Always, action: Action::Nothing, slot }
}

pub open spec fn marks(b: Benchmark, guard: Guard, marker: Marker) -> Seq<Step> {
    if b.emit_phase_markers {
        seq![Step { guard, action: Action::Mark { marker }, slot: Slot::Nowhere }]
    } else {
        Seq::empty()
    }
}

/// Compaction, where it was asked for.
pub open spec fn compaction_steps(b: Benchmark, compaction: bool, guard: Guard) -> Seq<Step> {
    if compaction {
        marks(b, guard, Marker::CompactionStarting) + seq![
            Step { guard, action: Action::Compact, slot: Slot::Nowhere },
            Step { guard, action: Action::Quiesce, slot: Slot::Nowhere },
        ] + marks(b, guard, Marker::ServerIdle)
    } else {
        Seq::empty()
    }
}

/// A phase that writes: run unless writes are skipped.
pub open spec fn write_phase(b: Benchmark, operation: BenchmarkOperation, slot: Slot) -> Step {
    if b.skip_writes {
        skipped(slot)
    } else {
        timed(Guard::Always, operation, b.samples, slot)
    }
}

/// How often a scan or batch is repeated: as often as it says, else once per sample.
pub open spec fn iterations_of(samples: u32, given: Option<usize>) -> u32 {
    match given {
        Some(n) => n as u32,
        None => samples,
    }
}

/// A scan heads a new section where the scan before it belongs to another group.
pub open spec fn new_section(scans: Seq<Scan>, i: int) -> bool {
    i == 0 || scans[i - 1].spec_group != scans[i].spec_group
}

/// A run name is printed where a group has several runs and the name is not that of the scan
/// before it in the same group.
pub open spec fn new_run(scans: Seq<Scan>, i: int) -> bool {
    scans[i].multi_run_spec && (i == 0 || scans[i - 1].spec_group != scans[i].spec_group
        || scans[i - 1].name@ != scans[i].name@)
}

pub open spec fn scan_heading(scans: Seq<Scan>, i: int) -> Seq<Step> {
    (if new_section(scans, i) {
        seq![always(Action::Head { heading: Heading::Scan { scan: i as usize } })]
    } else {
        Seq::empty()
    }) + (if new_run(scans, i) {
        seq![always(Action::Head { heading: Heading::RunName { scan: i as usize } })]
    } else {
        Seq::empty()
    })
}

/// The legs of a scan that mix writes in, one per entry of its write list.
pub open spec fn mixed_legs(
    b: Benchmark,
    scan: Scan,
    i: int,
    guard: Guard,
    context: ScanContext,
) -> Seq<Step> {
    Seq::new(
        scan.with_writes@.len(),
        |j: int|
            {
                let slot = Slot::Leg {
                    workload: ScanWorkload::ReadWrite {
                        write_ratio_percent: scan.with_writes@[j].write_ratio_percent,
                    },
                    indexed: context == ScanContext::WithIndex,
                };
                if b.skip_writes {
                    skipped(slot)
                } else {
                    timed(
                        guard,
                        BenchmarkOperation::ScanWithWrites {
                            scan: i as usize,
                            context,
                            writes: j as usize,
                        },
                        iterations_of(b.samples, scan.iterations),
                        slot,
                    )
                }
            },
    )
}

/// The legs of a scan in one context: the plain one, then the mixed ones.
pub open spec fn scan_legs(
    b: Benchmark,
    scan: Scan,
    i: int,
    guard: Guard,
    context: ScanContext,
) -> Seq<Step> {
    seq![
        timed(
            guard,
            BenchmarkOperation::Scan { scan: i as usize, context },
            iterations_of(b.samples, scan.iterations),
            Slot::Leg {
                workload: ScanWorkload::Read,
                indexed: context == ScanContext::WithIndex,
            },
        ),
    ] + mixed_legs(b, scan, i, guard, context)
}

/// Whether a vector search cannot do without an index.
pub open spec fn needs_index(strategy: VectorIndexStrategy) -> bool {
    strategy != VectorIndexStrategy::Bruteforce
}

/// The length of the vectors in the first vector column of the given name among the first `n`.
pub open spec fn vector_length(columns: Seq<Column>, field: Seq<char>, n: nat) -> Option<usize>
    decreases n,
{
    if n == 0 {
        None
    } else {
        match vector_length(columns, field, (n - 1) as nat) {
            Some(d) => Some(d),
            None => if columns[n - 1].name@ == field {
                columns[n - 1].vector
            } else {
                None
            },
        }
    }
}

/// A vector search: build the query set, build the index, time the search, drop the index.
pub open spec fn vector_steps(b: Benchmark, scan: Scan, i: int, compaction: bool, dim: usize) -> Seq<
    Step,
> {
    let indexed = needs_index(scan.vector_query->0.index_strategy);
    seq![
        always(Action::Queries { scan: i as usize }),
        once(
            Guard::Found,
            BenchmarkOperation::BuildVectorIndex { scan: i as usize, dim },
            Slot::IndexBuild,
        ),
    ] + compaction_steps(b, compaction, Guard::Built) + seq![
        timed(
            if indexed {
                Guard::Built
            } else {
                Guard::Found
            },
            BenchmarkOperation::VectorScan {
                scan: i as usize,
                context: if indexed {
                    ScanContext::WithIndex
                } else {
                    ScanContext::WithoutIndex
                },
            },
            iterations_of(b.samples, scan.iterations),
            Slot::Leg { workload: ScanWorkload::Read, indexed },
        ),
        once(
            Guard::Built,
            BenchmarkOperation::RemoveIndex { scan: i as usize },
            Slot::IndexRemove,
        ),
    ]
}

/// A scan with an index: the legs without it, then build it, the legs with it, and drop it.
pub open spec fn indexed_steps(b: Benchmark, scan: Scan, i: int, compaction: bool) -> Seq<Step> {
    scan_legs(b, scan, i, Guard::Always, ScanContext::WithoutIndex) + seq![
        once(
            Guard::Always,
            BenchmarkOperation::BuildIndex { scan: i as usize },
            Slot::IndexBuild,
        ),
    ] + compaction_steps(b, compaction, Guard::Built) + scan_legs(
        b,
        scan,
        i,
        Guard::Built,
        ScanContext::WithIndex,
    ) + seq![
        once(
            Guard::Built,
            BenchmarkOperation::RemoveIndex { scan: i as usize },
            Slot::IndexRemove,
        ),
    ]
}

/// Whether the scan is timed with an index too.
pub open spec fn wants_index(scan: Scan) -> bool {
    scan.with_index matches Some(index) && !index.skip
}

/// What is timed for a scan.
pub open spec fn scan_body(
    b: Benchmark,
    scan: Scan,
    i: int,
    columns: Seq<Column>,
    compaction: bool,
) -> Seq<Step> {
    match scan.vector_query {
        Some(query) => match vector_length(columns, query.field@, columns.len()) {
            Some(dim) => vector_steps(b, scan, i, compaction, dim),
            None => seq![always(Action::Refuse { scan: i as usize })],
        },
        None => if wants_index(scan) {
            indexed_steps(b, scan, i, compaction)
        } else {
            scan_legs(b, scan, i, Guard::Always, ScanContext::WithoutIndex)
        },
    }
}

pub open spec fn scan_steps(
    b: Benchmark,
    scans: Seq<Scan>,
    i: int,
    columns: Seq<Column>,
    compaction: bool,
) -> Seq<Step> {
    scan_heading(scans, i) + seq![skipped(Slot::OpenScan { scan: i as usize })] + scan_body(
        b,
        scans[i],
        i,
        columns,
        compaction,
    )
}

/// The steps of the first `n` scans.
pub open spec fn all_scan_steps(
    b: Benchmark,
    scans: Seq<Scan>,
    n: nat,
    columns: Seq<Column>,
    compaction: bool,
) -> Seq<Step>
    decreases n,
{
    if n == 0 {
        Seq::empty()
    } else {
        all_scan_steps(b, scans, (n - 1) as nat, columns, compaction) + scan_steps(
            b,
            scans,
            n - 1,
            columns,
            compaction,
        )
    }
}

pub open spec fn skips_deletes(b: Benchmark) -> bool {
    b.skip_deletes || b.skip_writes
}

pub open spec fn delete_steps(b: Benchmark) -> Seq<Step> {
    if skips_deletes(b) {
        seq![
            always(Action::Head { heading: Heading::DeleteSkipped }),
            skipped(Slot::Deletes),
        ]
    } else {
        seq![
            always(Action::Head { heading: Heading::Delete }),
            timed(Guard::Always, BenchmarkOperation::Delete, b.samples, Slot::Deletes),
        ]
    }
}

pub open spec fn skips_batch(b: Benchmark, kind: BatchOperationType) -> bool {
    match kind {
        BatchOperationType::Create => b.skip_writes,
        BatchOperationType::Read => false,
        BatchOperationType::Update => b.skip_writes,
        BatchOperationType::Delete => skips_deletes(b),
    }
}

pub open spec fn batch_operation(kind: BatchOperationType, i: int) -> BenchmarkOperation {
    match kind {
        BatchOperationType::Create => BenchmarkOperation::BatchCreate { batch: i as usize },
        BatchOperationType::Read => BenchmarkOperation::BatchRead { batch: i as usize },
        BatchOperationType::Update => BenchmarkOperation::BatchUpdate { batch: i as usize },
        BatchOperationType::Delete => BenchmarkOperation::BatchDelete { batch: i as usize },
    }
}

pub open spec fn batch_step(b: Benchmark, batch: BatchOperation, i: int) -> Step {
    let slot = Slot::Batch { batch: i as usize };
    if skips_batch(b, batch.operation) {
        skipped(slot)
    } else {
        timed(
            Guard::Always,
            batch_operation(batch.operation, i),
            iterations_of(b.samples, batch.iterations),
            slot,
        )
    }
}

pub open spec fn batch_steps(b: Benchmark, batches: Seq<BatchOperation>) -> Seq<Step> {
    (if batches.len() > 0 {
        seq![always(Action::Head { heading: Heading::Batches })]
    } else {
        Seq::empty()
    }) + Seq::new(batches.len(), |i: int| batch_step(b, batches[i], i))
}

pub open spec fn opening_steps(b: Benchmark) -> Seq<Step> {
    seq![always(Action::Announce), always(Action::Startup), always(Action::Connect)] + marks(
        b,
        Guard::Always,
        Marker::BenchmarkStarting,
    )
}

pub open spec fn closing_steps(b: Benchmark) -> Seq<Step> {
    marks(b, Guard::Always, Marker::BenchmarkComplete) + seq![always(Action::Shutdown)]
}

/// The create, read and update phases, each followed by a compaction.
pub open spec fn record_steps(b: Benchmark, compaction: bool) -> Seq<Step> {
    let compact = compaction_steps(b, compaction, Guard::Always);
    seq![write_phase(b, BenchmarkOperation::Create, Slot::Creates)] + compact + seq![
        timed(Guard::Always, BenchmarkOperation::Read, b.samples, Slot::Reads),
    ] + compact + seq![write_phase(b, BenchmarkOperation::Update, Slot::Updates)] + compact
}

/// Everything a run may do, in order.
pub open spec fn agenda(b: Benchmark, c: Catalog, columns: Seq<Column>, compaction: bool) -> Seq<
    Step,
> {
    if b.suite == Suite::SteadyState {
        opening_steps(b) + seq![always(Action::SteadyState)] + closing_steps(b)
    } else {
        let compact = compaction_steps(b, compaction, Guard::Always);
        opening_steps(b) + record_steps(b, compaction) + all_scan_steps(
            b,
            c.scans@,
            c.scans@.len(),
            columns,
            compaction,
        ) + compact + delete_steps(b) + compact + batch_steps(b, c.batches@) + closing_steps(b)
    }
}

fn push_marks(steps: &mut Vec<Step>, b: &Benchmark, guard: Guard, marker: Marker)
    ensures
        final(steps)@ == old(steps)@ + marks(*b, guard, marker),
{
    if b.emit_phase_markers {
        steps.push(Step { guard, action: Action::Mark { marker }, slot: Slot::Nowhere });
    }
}

fn push_action(steps: &mut Vec<Step>, action: Action)
    ensures
        final(steps)@ == old(steps)@.push(always(action)),
{
    steps.push(Step { guard: Guard::Always, action, slot: Slot::Nowhere });
}

fn push_timed(
    steps: &mut Vec<Step>,
    guard: Guard,
    operation: BenchmarkOperation,
    samples: u32,
    slot: Slot,
)
    ensures
        final(steps)@ == old(steps)@.push(timed(guard, operation, samples, slot)),
{
    steps.push(Step { guard, action: Action::Operate { operation, lone: false, samples }, slot });
}

fn push_once(steps: &mut Vec<Step>, guard: Guard, operation: BenchmarkOperation, slot: Slot)
    ensures
        final(steps)@ == old(steps)@.push(once(guard, operation, slot)),
{
    steps.push(
        Step { guard, action: Action::Operate { operation, lone: true, samples: 1 }, slot },
    );
}

fn push_skipped(steps: &mut Vec<Step>, slot: Slot)
    ensures
        final(steps)@ == old(steps)@.push(skipped(slot)),
{
    steps.push(Step { guard: Guard::Always, action: Action::Nothing, slot });
}

fn push_compaction(steps: &mut Vec<Step>, b: &Benchmark, compaction: bool, guard: Guard)
    ensures
        final(steps)@ == old(steps)@ + compaction_steps(*b, compaction, guard),
{
    if compaction {
        push_marks(steps, b, guard, Marker::CompactionStarting);
        steps.push(Step { guard, action: Action::Compact, slot: Slot::Nowhere });
        steps.push(Step { guard, action: Action::Quiesce, slot: Slot::Nowhere });
        push_marks(steps, b, guard, Marker::ServerIdle);
    }
    assert(steps@ =~= old(steps)@ + compaction_steps(*b, compaction, guard));
}

fn push_write_phase(
    steps: &mut Vec<Step>,
    b: &Benchmark,
    operation: BenchmarkOperation,
    slot: Slot,
)
    ensures
        final(steps)@ == old(steps)@.push(write_phase(*b, operation, slot)),
{
    if b.skip_writes {
        push_skipped(steps, slot);
    } else {
        push_timed(steps, Guard::Always, operation, b.samples, slot);
    }
}

/// How often a scan or batch is repeated.
pub fn iterations(samples: u32, given: Option<usize>) -> (r: u32)
    ensures
        r == iterations_of(samples, given),
{
    match given {
        Some(n) => n as u32,
        None => samples,
    }
}

fn push_scan_legs(
    steps: &mut Vec<Step>,
    b: &Benchmark,
    scan: &Scan,
    i: usize,
    guard: Guard,
    context: ScanContext,
)
    ensures
        final(steps)@ == old(steps)@ + scan_legs(*b, *scan, i as int, guard, context),
{
    let indexed: bool = context == ScanContext::WithIndex;
    let samples: u32 = iterations(b.samples, scan.iterations);
    push_timed(
        steps,
        guard,
        BenchmarkOperation::Scan { scan: i, context },
        samples,
        Slot::Leg { workload: ScanWorkload::Read, indexed },
    );
    let ghost start = steps@;
    let ghost want = mixed_legs(*b, *scan, i as int, guard, context);
    let mut j: usize = 0;
    while j < scan.with_writes.len()
        invariant
            j <= scan.with_writes@.len() == want.len(),
            want == mixed_legs(*b, *scan, i as int, guard, context),
            indexed == (context == ScanContext::WithIndex),
            samples == iterations_of(b.samples, scan.iterations),
            steps@ == start + want.take(j as int),
        decreases scan.with_writes@.len() - j,
    {
        let writes: &ScanWithWrites = &scan.with_writes[j];
        let slot: Slot = Slot::Leg {
            workload: ScanWorkload::ReadWrite { write_ratio_percent: writes.write_ratio_percent },
            indexed,
        };
        if b.skip_writes {
            push_skipped(steps, slot);
        } else {
            push_timed(
                steps,
                guard,
                BenchmarkOperation::ScanWithWrites { scan: i, context, writes: j },
                samples,
                slot,
            );
        }
        assert(want.take(j + 1) =~= want.take(j as int).push(want[j as int]));
        j = j + 1;
    }
    assert(want.take(j as int) =~= want);
    assert(steps@ =~= old(steps)@ + scan_legs(*b, *scan, i as int, guard, context));
}

/// Looks up the length of the vectors in a vector column.
pub fn vector_dimension(columns: &Vec<Column>, field: &str) -> (r: Option<usize>)
    ensures
        r == vector_length(columns@, field@, columns@.len()),
{
    let mut found: Option<usize> = None;
    let mut k: usize = 0;
    while k < columns.len()
        invariant
            k <= columns@.len(),
            found == vector_length(columns@, field@, k as nat),
        decreases columns@.len() - k,
    {
        if found.is_none() && same_text(columns[k].name.as_str(), field) {
            found = columns[k].vector;
        }
        k = k + 1;
    }
    found
}

fn push_vector_steps(
    steps: &mut Vec<Step>,
    b: &Benchmark,
    scan: &Scan,
    i: usize,
    compaction: bool,
    dim: usize,
    strategy: VectorIndexStrategy,
)
    requires
        scan.vector_query matches Some(q) && q.index_strategy == strategy,
    ensures
        final(steps)@ == old(steps)@ + vector_steps(*b, *scan, i as int, compaction, dim),
{
    let indexed: bool = match strategy {
        VectorIndexStrategy::Hnsw | VectorIndexStrategy::DiskAnn => true,
        VectorIndexStrategy::Bruteforce => false,
    };
    push_action(steps, Action::Queries { scan: i });
    push_once(
        steps,
        Guard::Found,
        BenchmarkOperation::BuildVectorIndex { scan: i, dim },
        Slot::IndexBuild,
    );
    push_compaction(steps, b, compaction, Guard::Built);
    push_timed(
        steps,
        if indexed {
            Guard::Built
        } else {
            Guard::Found
        },
        BenchmarkOperation::VectorScan {
            scan: i,
            context: if indexed {
                ScanContext::WithIndex
            } else {
                ScanContext::WithoutIndex
            },
        },
        iterations(b.samples, scan.iterations),
        Slot::Leg { workload: ScanWorkload::Read, indexed },
    );
    push_once(
        steps,
        Guard::Built,
        BenchmarkOperation::RemoveIndex { scan: i },
        Slot::IndexRemove,
    );
    assert(steps@ =~= old(steps)@ + vector_steps(*b, *scan, i as int, compaction, dim));
}

fn push_indexed_steps(
    steps: &mut Vec<Step>,
    b: &Benchmark,
    scan: &Scan,
    i: usize,
    compaction: bool,
)
    ensures
        final(steps)@ == old(steps)@ + indexed_steps(*b, *scan, i as int, compaction),
{
    let ghost start = steps@;
    push_scan_legs(steps, b, scan, i, Guard::Always, ScanContext::WithoutIndex);
    push_once(
        steps,
        Guard::Always,
        BenchmarkOperation::BuildIndex { scan: i },
        Slot::IndexBuild,
    );
    push_compaction(steps, b, compaction, Guard::Built);
    push_scan_legs(steps, b, scan, i, Guard::Built, ScanContext::WithIndex);
    push_once(
        steps,
        Guard::Built,
        BenchmarkOperation::RemoveIndex { scan: i },
        Slot::IndexRemove,
    );
    proof {
        let heap = scan_legs(*b, *scan, i as int, Guard::Always, ScanContext::WithoutIndex);
        let build = once(
            Guard::Always,
            BenchmarkOperation::BuildIndex { scan: i },
            Slot::IndexBuild,
        );
        let compact = compaction_steps(*b, compaction, Guard::Built);
        let indexed = scan_legs(*b, *scan, i as int, Guard::Built, ScanContext::WithIndex);
        let remove = once(
            Guard::Built,
            BenchmarkOperation::RemoveIndex { scan: i },
            Slot::IndexRemove,
        );
        lemma_five_parts(start, heap, build, compact, indexed, remove);
    }
}

proof fn lemma_five_parts<A>(s: Seq<A>, p: Seq<A>, q: A, t: Seq<A>, u: Seq<A>, v: A)
    ensures
        ((s + p).push(q) + t + u).push(v) == s + (p + seq![q] + t + u + seq![v]),
{
    assert(((s + p).push(q) + t + u).push(v) =~= s + (p + seq![q] + t + u + seq![v]));
}

fn push_scan_body(
    steps: &mut Vec<Step>,
    b: &Benchmark,
    scan: &Scan,
    i: usize,
    columns: &Vec<Column>,
    compaction: bool,
)
    ensures
        final(steps)@ == old(steps)@ + scan_body(*b, *scan, i as int, columns@, compaction),
{
    match &scan.vector_query {
        Some(query) => {
            match vector_dimension(columns, query.field.as_str()) {
                Some(dim) => push_vector_steps(
                    steps,
                    b,
                    scan,
                    i,
                    compaction,
                    dim,
                    query.index_strategy,
                ),
                None => push_action(steps, Action::Refuse { scan: i }),
            }
        },
        None => {
            let wanted: bool = match &scan.with_index {
                Some(index) => !index.skip,
                None => false,
            };
            if wanted {
                push_indexed_steps(steps, b, scan, i, compaction);
            } else {
                push_scan_legs(steps, b, scan, i, Guard::Always, ScanContext::WithoutIndex);
            }
        },
    }
}

fn push_scan_heading(steps: &mut Vec<Step>, scans: &Vec<Scan>, i: usize)
    requires
        i < scans@.len(),
    ensures
        final(steps)@ == old(steps)@ + scan_heading(scans@, i as int),
{
    let scan: &Scan = &scans[i];
    let same_group: bool = i > 0 && scans[i - 1].spec_group == scan.spec_group;
    if !same_group {
        push_action(steps, Action::Head { heading: Heading::Scan { scan: i } });
    }
    if scan.multi_run_spec && !(same_group && same_text(
        scans[i - 1].name.as_str(),
        scan.name.as_str(),
    )) {
        push_action(steps, Action::Head { heading: Heading::RunName { scan: i } });
    }
}

fn push_scans(
    steps: &mut Vec<Step>,
    b: &Benchmark,
    scans: &Vec<Scan>,
    columns: &Vec<Column>,
    compaction: bool,
)
    ensures
        final(steps)@ == old(steps)@ + all_scan_steps(
            *b,
            scans@,
            scans@.len(),
            columns@,
            compaction,
        ),
{
    let ghost start = steps@;
    let mut i: usize = 0;
    assert(steps@ =~= start + all_scan_steps(*b, scans@, 0, columns@, compaction));
    while i < scans.len()
        invariant
            i <= scans@.len(),
            steps@ == start + all_scan_steps(*b, scans@, i as nat, columns@, compaction),
        decreases scans@.len() - i,
    {
        let ghost done = all_scan_steps(*b, scans@, i as nat, columns@, compaction);
        push_scan_heading(steps, scans, i);
        push_skipped(steps, Slot::OpenScan { scan: i });
        push_scan_body(steps, b, &scans[i], i, columns, compaction);
        proof {
            lemma_three_parts(
                start,
                done,
                scan_heading(scans@, i as int),
                skipped(Slot::OpenScan { scan: i }),
                scan_body(*b, scans@[i as int], i as int, columns@, compaction),
            );
        }
        i = i + 1;
    }
}

proof fn lemma_three_parts<A>(s: Seq<A>, done: Seq<A>, p: Seq<A>, q: A, t: Seq<A>)
    ensures
        (s + done + p).push(q) + t == s + (done + (p + seq![q] + t)),
{
    assert((s + done + p).push(q) + t =~= s + (done + (p + seq![q] + t)));
}

fn push_batches(steps: &mut Vec<Step>, b: &Benchmark, batches: &Vec<BatchOperation>)
    ensures
        final(steps)@ == old(steps)@ + batch_steps(*b, batches@),
{
    if batches.len() > 0 {
        push_action(steps, Action::Head { heading: Heading::Batches });
    }
    let ghost start = steps@;
    let ghost want = Seq::new(batches@.len(), |k: int| batch_step(*b, batches@[k], k));
    let mut i: usize = 0;
    while i < batches.len()
        invariant
            i <= batches@.len() == want.len(),
            want == Seq::new(batches@.len(), |k: int| batch_step(*b, batches@[k], k)),
            steps@ == start + want.take(i as int),
        decreases batches@.len() - i,
    {
        let kind: BatchOperationType = batches[i].operation;
        let skip: bool = match kind {
            BatchOperationType::Create | BatchOperationType::Update => b.skip_writes,
            BatchOperationType::Read => false,
            BatchOperationType::Delete => b.skip_deletes || b.skip_writes,
        };
        let slot: Slot = Slot::Batch { batch: i };
        if skip {
            push_skipped(steps, slot);
        } else {
            let operation: BenchmarkOperation = match kind {
                BatchOperationType::Create => BenchmarkOperation::BatchCreate { batch: i },
                BatchOperationType::Read => BenchmarkOperation::BatchRead { batch: i },
                BatchOperationType::Update => BenchmarkOperation::BatchUpdate { batch: i },
                BatchOperationType::Delete => BenchmarkOperation::BatchDelete { batch: i },
            };
            push_timed(
                steps,
                Guard::Always,
                operation,
                iterations(b.samples, batches[i].iterations),
                slot,
            );
        }
        assert(want.take(i + 1) =~= want.take(i as int).push(want[i as int]));
        i = i + 1;
    }
    assert(want.take(i as int) =~= want);
    assert(steps@ =~= old(steps)@ + batch_steps(*b, batches@));
}

fn push_opening(steps: &mut Vec<Step>, b: &Benchmark)
    ensures
        final(steps)@ == old(steps)@ + opening_steps(*b),
{
    push_action(steps, Action::Announce);
    push_action(steps, Action::Startup);
    push_action(steps, Action::Connect);
    push_marks(steps, b, Guard::Always, Marker::BenchmarkStarting);
    assert(steps@ =~= old(steps)@ + opening_steps(*b));
}

fn push_records(steps: &mut Vec<Step>, b: &Benchmark, compaction: bool)
    ensures
        final(steps)@ == old(steps)@ + record_steps(*b, compaction),
{
    let ghost start = steps@;
    push_write_phase(steps, b, BenchmarkOperation::Create, Slot::Creates);
    push_compaction(steps, b, compaction, Guard::Always);
    push_timed(steps, Guard::Always, BenchmarkOperation::Read, b.samples, Slot::Reads);
    push_compaction(steps, b, compaction, Guard::Always);
    push_write_phase(steps, b, BenchmarkOperation::Update, Slot::Updates);
    push_compaction(steps, b, compaction, Guard::Always);
    proof {
        lemma_six_parts(
            start,
            write_phase(*b, BenchmarkOperation::Create, Slot::Creates),
            timed(Guard::Always, BenchmarkOperation::Read, b.samples, Slot::Reads),
            write_phase(*b, BenchmarkOperation::Update, Slot::Updates),
            compaction_steps(*b, compaction, Guard::Always),
        );
    }
}

proof fn lemma_six_parts<A>(s: Seq<A>, p: A, q: A, t: A, c: Seq<A>)
    ensures
        ((s.push(p) + c).push(q) + c).push(t) + c == s + (seq![p] + c + seq![q] + c + seq![t] + c),
{
    assert(((s.push(p) + c).push(q) + c).push(t) + c =~= s + (seq![p] + c + seq![q] + c + seq![t]
        + c));
}

fn push_delete(steps: &mut Vec<Step>, b: &Benchmark)
    ensures
        final(steps)@ == old(steps)@ + delete_steps(*b),
{
    if b.skip_deletes || b.skip_writes {
        push_action(steps, Action::Head { heading: Heading::DeleteSkipped });
        push_skipped(steps, Slot::Deletes);
    } else {
        push_action(steps, Action::Head { heading: Heading::Delete });
        push_timed(steps, Guard::Always, BenchmarkOperation::Delete, b.samples, Slot::Deletes);
    }
    assert(steps@ =~= old(steps)@ + delete_steps(*b));
}

fn push_closing(steps: &mut Vec<Step>, b: &Benchmark)
    ensures
        final(steps)@ == old(steps)@ + closing_steps(*b),
{
    push_marks(steps, b, Guard::Always, Marker::BenchmarkComplete);
    push_action(steps, Action::Shutdown);
    assert(steps@ =~= old(steps)@ + closing_steps(*b));
}

/// Lays out everything a run may do, in order. `compaction` tells whether the datastore is
/// compacted between phases.
pub fn plan(
    b: &Benchmark,
    catalog: &Catalog,
    columns: &Vec<Column>,
    compaction: bool,
) -> (r: Vec<Step>)
    ensures
        r@ == agenda(*b, *catalog, columns@, compaction),
{
    let mut steps: Vec<Step> = Vec::new();
    push_opening(&mut steps, b);
    assert(steps@ =~= opening_steps(*b));
    if b.suite == Suite::SteadyState {
        push_action(&mut steps, Action::SteadyState);
    } else {
        push_records(&mut steps, b, compaction);
        push_scans(&mut steps, b, &catalog.scans, columns, compaction);
        push_compaction(&mut steps, b, compaction, Guard::Always);
        push_delete(&mut steps, b);
        push_compaction(&mut steps, b, compaction, Guard::Always);
        push_batches(&mut steps, b, &catalog.batches);
    }
    push_closing(&mut steps, b);
    steps
}

/// The line that tells how many clients are set up.
pub open spec fn announcement_text(clients: u32) -> Seq<char> {
    "Setting up the datastore with "@ + text::decimal(clients as nat) + " clients"@
}

pub fn announcement(clients: u32) -> (r: String)
    ensures
        r@ == announcement_text(clients),
{
    cat3("Setting up the datastore with ", decimal_text(clients as u128).as_str(), " clients")
}

impl Marker {
    pub open spec fn line(self) -> Seq<char> {
        match self {
            Marker::BenchmarkStarting => "Benchmark starting"@,
            Marker::BenchmarkComplete => "Benchmark complete"@,
            Marker::CompactionStarting => "Compaction starting"@,
            Marker::ServerIdle => "Server idle"@,
        }
    }

    pub fn text(self) -> (r: &'static str)
        ensures
            r@ == self.line(),
    {
        match self {
            Marker::BenchmarkStarting => "Benchmark starting",
            Marker::BenchmarkComplete => "Benchmark complete",
            Marker::CompactionStarting => "Compaction starting",
            Marker::ServerIdle => "Server idle",
        }
    }
}

impl Heading {
    pub open spec fn known_to(self, c: Catalog) -> bool {
        match self {
            Heading::Scan { scan } => scan < c.scans@.len(),
            Heading::RunName { scan } => scan < c.scans@.len(),
            _ => true,
        }
    }

    pub open spec fn line(self, c: Catalog) -> Seq<char> {
        match self {
            Heading::Scan { scan } => "Scan \u{b7} "@ + c.scans@[scan as int].id@,
            Heading::RunName { scan } => c.scans@[scan as int].name@,
            Heading::Delete => "Delete"@,
            Heading::DeleteSkipped => "Delete (skipped)"@,
            Heading::Batches => "Batches"@,
        }
    }

    pub fn text(self, catalog: &Catalog) -> (r: String)
        requires
            self.known_to(*catalog),
        ensures
            r@ == self.line(*catalog),
    {
        match self {
            Heading::Scan { scan } => cat2("Scan \u{b7} ", catalog.scans[scan].id.as_str()),
            Heading::RunName { scan } => catalog.scans[scan].name.clone(),
            Heading::Delete => "Delete".to_owned(),
            Heading::DeleteSkipped => "Delete (skipped)".to_owned(),
            Heading::Batches => "Batches".to_owned(),
        }
    }
}

/// Why a run stops at a vector scan whose field is no vector column.
pub open spec fn refusal_text(scan: Scan) -> Seq<char> {
    "scan `"@ + scan.name@ + "`: vector_query.field `"@ + scan.vector_query->0.field@
        + "` must be a `vector:<dim>` column in the schema"@
}

pub fn refusal(scan: &Scan) -> (r: String)
    requires
        scan.vector_query is Some,
    ensures
        r@ == refusal_text(*scan),
{
    match &scan.vector_query {
        Some(query) => cat5(
            "scan `",
            scan.name.as_str(),
            "`: vector_query.field `",
            query.field.as_str(),
            "` must be a `vector:<dim>` column in the schema",
        ),
        None => String::new(),
    }
}

} // verus!
