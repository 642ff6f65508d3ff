//! The course of a run: what is timed, for which result, and in which order.
use crate::course;
use crate::operation::{
    BatchOperation, BatchOperationType, BenchmarkOperation, Catalog, Scan, ScanContext,
    VectorIndexStrategy,
};
use crate::run;
use crate::run::{Action, Column, Guard, Heading, Marker, ScanWorkload, Slot, Step};
use crate::settings::{Benchmark, Suite};
use vstd::prelude::*;

verus! {

/// How often a phase is repeated: as often as it says, else once per sample.
pub open spec fn repeats(given: Option<usize>, samples: u32) -> u32 {
    if given is Some {
        given->0 as u32
    } else {
        samples
    }
}

/// Whether the step times the operation on all clients.
pub open spec fn times(s: Step, op: BenchmarkOperation, samples: u32) -> bool {
    s.action == (Action::Operate { operation: op, lone: false, samples })
}

/// Whether the step does nothing but file an empty result.
pub open spec fn omits(s: Step) -> bool {
    s.action == Action::Nothing && s.guard == Guard::Always
}

pub open spec fn context_for(indexed: bool) -> ScanContext {
    if indexed {
        ScanContext::WithIndex
    } else {
        ScanContext::WithoutIndex
    }
}

pub open spec fn leg_fits(
    s: Step,
    workload: ScanWorkload,
    indexed: bool,
    b: Benchmark,
    c: Catalog,
) -> bool {
    match workload {
        ScanWorkload::Read => match s.action {
            Action::Operate { operation: BenchmarkOperation::Scan { scan, context }, .. } => {
                &&& c.scans@[scan as int].vector_query is None
                &&& context == context_for(indexed)
                &&& s.guard == if indexed {
                    Guard::Built
                } else {
                    Guard::Always
                }
                &&& times(
                    s,
                    BenchmarkOperation::Scan { scan, context },
                    repeats(c.scans@[scan as int].iterations, b.samples),
                )
            },
            Action::Operate { operation: BenchmarkOperation::VectorScan { scan, context }, .. } => {
                &&& c.scans@[scan as int].vector_query matches Some(query) && indexed == (
                query.index_strategy != VectorIndexStrategy::Bruteforce)
                &&& context == context_for(indexed)
                &&& s.guard == if indexed {
                    Guard::Built
                } else {
                    Guard::Found
                }
                &&& times(
                    s,
                    BenchmarkOperation::VectorScan { scan, context },
                    repeats(c.scans@[scan as int].iterations, b.samples),
                )
            },
            _ => false,
        },
        ScanWorkload::ReadWrite { write_ratio_percent } => match s.action {
            Action::Operate {
                operation: BenchmarkOperation::ScanWithWrites { scan, context, writes },
                ..
            } => {
                &&& !b.skip_writes
                &&& c.scans@[scan as int].with_writes@[writes as int].write_ratio_percent
                    == write_ratio_percent
                &&& context == context_for(indexed)
                &&& s.guard == if indexed {
                    Guard::Built
                } else {
                    Guard::Always
                }
                &&& times(
                    s,
                    BenchmarkOperation::ScanWithWrites { scan, context, writes },
                    repeats(c.scans@[scan as int].iterations, b.samples),
                )
            },
            _ => b.skip_writes && omits(s),
        },
    }
}

pub open spec fn batch_fits(s: Step, batch: usize, b: Benchmark, c: Catalog) -> bool {
    let n = repeats(c.batches@[batch as int].iterations, b.samples);
    &&& s.guard == Guard::Always
    &&& match c.batches@[batch as int].operation {
        BatchOperationType::Create => if b.skip_writes {
            omits(s)
        } else {
            times(s, BenchmarkOperation::BatchCreate { batch }, n)
        },
        BatchOperationType::Read => times(s, BenchmarkOperation::BatchRead { batch }, n),
        BatchOperationType::Update => if b.skip_writes {
            omits(s)
        } else {
            times(s, BenchmarkOperation::BatchUpdate { batch }, n)
        },
        BatchOperationType::Delete => if b.skip_writes || b.skip_deletes {
            omits(s)
        } else {
            times(s, BenchmarkOperation::BatchDelete { batch }, n)
        },
    }
}

/// Whether a step does what the slot of its result is for: the result of a phase comes from that
/// phase, and a step without a slot times nothing.
pub open spec fn fits(s: Step, b: Benchmark, c: Catalog) -> bool {
    match s.slot {
        Slot::Nowhere => !(s.action is Operate) && s.action != Action::Nothing,
        Slot::Creates => if b.skip_writes {
            omits(s)
        } else {
            s.guard == Guard::Always && times(s, BenchmarkOperation::Create, b.samples)
        },
        Slot::Reads => s.guard == Guard::Always && times(s, BenchmarkOperation::Read, b.samples),
        Slot::Updates => if b.skip_writes {
            omits(s)
        } else {
            s.guard == Guard::Always && times(s, BenchmarkOperation::Update, b.samples)
        },
        Slot::Deletes => if b.skip_writes || b.skip_deletes {
            omits(s)
        } else {
            s.guard == Guard::Always && times(s, BenchmarkOperation::Delete, b.samples)
        },
        Slot::OpenScan { .. } => omits(s),
        Slot::Leg { workload, indexed } => leg_fits(s, workload, indexed, b, c),
        Slot::IndexBuild => s.action matches Action::Operate { operation, lone, samples } && lone
            && samples == 1 && match operation {
            BenchmarkOperation::BuildIndex { scan } => s.guard == Guard::Always
                && c.scans@[scan as int].vector_query is None,
            BenchmarkOperation::BuildVectorIndex { scan, .. } => s.guard == Guard::Found
                && c.scans@[scan as int].vector_query is Some,
            _ => false,
        },
        Slot::IndexRemove => s.guard == Guard::Built && (
        s.action matches Action::Operate { operation, lone, samples } && lone && samples == 1
            && operation is RemoveIndex),
        Slot::Batch { batch } => batch_fits(s, batch, b, c),
    }
}

proof fn lemma_legs_fit(
    b: Benchmark,
    c: Catalog,
    i: int,
    guard: Guard,
    context: ScanContext,
)
    requires
        0 <= i < c.scans@.len(),
        c.scans@[i].vector_query is None,
        guard == if context == ScanContext::WithIndex {
            Guard::Built
        } else {
            Guard::Always
        },
    ensures
        course::each(
            run::scan_legs(b, c.scans@[i], i, guard, context),
            |s: Step| fits(s, b, c),
        ),
{
    let p = |s: Step| fits(s, b, c);
    let steps = run::scan_legs(b, c.scans@[i], i, guard, context);
    assert(c.scans.len() == c.scans@.len());
    assert(c.scans@[i].with_writes.len() == c.scans@[i].with_writes@.len());
    assert(i as usize as int == i);
    assert forall|k: int| 0 <= k < steps.len() implies p(#[trigger] steps[k]) by {
        if k > 0 {
            assert(steps[k] == run::mixed_legs(b, c.scans@[i], i, guard, context)[k - 1]);
            assert((k - 1) as usize as int == k - 1);
        }
    }
}

#[verifier::spinoff_prover]
proof fn lemma_vector_fits(b: Benchmark, c: Catalog, i: int, compaction: bool, dim: usize)
    requires
        0 <= i < c.scans@.len(),
        c.scans@[i].vector_query is Some,
    ensures
        course::each(
            run::vector_steps(b, c.scans@[i], i, compaction, dim),
            |s: Step| fits(s, b, c),
        ),
{
    let p = |s: Step| fits(s, b, c);
    assert(c.scans.len() == c.scans@.len());
    assert(i as usize as int == i);
    let compact = run::compaction_steps(b, compaction, Guard::Built);
    assert(course::each(compact, p));
    let steps = run::vector_steps(b, c.scans@[i], i, compaction, dim);
    let n = compact.len() as int;
    assert forall|k: int| 0 <= k < steps.len() implies p(#[trigger] steps[k]) by {
        if 2 <= k < 2 + n {
            assert(steps[k] == compact[k - 2]);
        }
    }
}

#[verifier::spinoff_prover]
proof fn lemma_body_fits(b: Benchmark, c: Catalog, i: int, columns: Seq<Column>, compaction: bool)
    requires
        0 <= i < c.scans@.len(),
    ensures
        course::each(
            run::scan_body(b, c.scans@[i], i, columns, compaction),
            |s: Step| fits(s, b, c),
        ),
{
    let p = |s: Step| fits(s, b, c);
    let scan = c.scans@[i];
    assert(c.scans.len() == c.scans@.len());
    assert(i as usize as int == i);
    match scan.vector_query {
        Some(query) => {
            match run::vector_length(columns, query.field@, columns.len()) {
                Some(dim) => {
                    lemma_vector_fits(b, c, i, compaction, dim);
                },
                None => {},
            }
        },
        None => {
            lemma_legs_fit(b, c, i, Guard::Always, ScanContext::WithoutIndex);
            lemma_legs_fit(b, c, i, Guard::Built, ScanContext::WithIndex);
            let heap = run::scan_legs(b, scan, i, Guard::Always, ScanContext::WithoutIndex);
            let build = seq![
                run::once(
                    Guard::Always,
                    BenchmarkOperation::BuildIndex { scan: i as usize },
                    Slot::IndexBuild,
                ),
            ];
            let compact = run::compaction_steps(b, compaction, Guard::Built);
            let indexed = run::scan_legs(b, scan, i, Guard::Built, ScanContext::WithIndex);
            let remove = seq![
                run::once(
                    Guard::Built,
                    BenchmarkOperation::RemoveIndex { scan: i as usize },
                    Slot::IndexRemove,
                ),
            ];
            assert(course::each(build, p));
            assert(course::each(compact, p));
            assert(course::each(remove, p));
            course::lemma_each_add(heap, build, p);
            course::lemma_each_add(heap + build, compact, p);
            course::lemma_each_add(heap + build + compact, indexed, p);
            course::lemma_each_add(heap + build + compact + indexed, remove, p);
        },
    }
}

#[verifier::spinoff_prover]
proof fn lemma_batches_fit(b: Benchmark, c: Catalog)
    ensures
        course::each(run::batch_steps(b, c.batches@), |s: Step| fits(s, b, c)),
{
    let p = |s: Step| fits(s, b, c);
    let steps = run::batch_steps(b, c.batches@);
    assert(c.batches.len() == c.batches@.len());
    assert forall|k: int| 0 <= k < steps.len() implies p(#[trigger] steps[k]) by {
        if k > 0 {
            assert((k - 1) as usize as int == k - 1);
            assert(steps[k] == run::batch_step(b, c.batches@[k - 1], k - 1));
        }
    }
}

/// Every result that a run files comes from the phase that the slot of the result is for: creates
/// from the create phase, a batch from the operation of its kind on that batch, a leg of a scan from
/// that scan with an index or without, and so on; and every phase that is timed is filed.
pub proof fn lemma_results_from_their_phase(
    b: Benchmark,
    c: Catalog,
    columns: Seq<Column>,
    compaction: bool,
)
    ensures
        course::each(run::agenda(b, c, columns, compaction), |s: Step| fits(s, b, c)),
{
    let p = |s: Step| fits(s, b, c);
    assert forall|i: int| 0 <= i < c.scans@.len() implies course::each(
        #[trigger] run::scan_steps(b, c.scans@, i, columns, compaction),
        p,
    ) by {
        lemma_body_fits(b, c, i, columns, compaction);
        let open = seq![run::skipped(Slot::OpenScan { scan: i as usize })];
        let head = run::scan_heading(c.scans@, i);
        assert(course::each(head, p));
        course::lemma_each_add(head, open, p);
        course::lemma_each_add(
            head + open,
            run::scan_body(b, c.scans@[i], i, columns, compaction),
            p,
        );
    }
    lemma_batches_fit(b, c);
    course::lemma_each_agenda(b, c, columns, compaction, p);
}

/// Whether a step is about no other scan than the given one.
pub open spec fn about(s: Step, i: int) -> bool {
    &&& match s.action {
        Action::Operate { operation, .. } => operation.scan_position() == Some(i as usize),
        Action::Queries { scan } => scan == i as usize,
        Action::Refuse { scan } => scan == i as usize,
        Action::Head { heading } => heading == (Heading::Scan { scan: i as usize }) || heading == (
        Heading::RunName { scan: i as usize }),
        _ => true,
    }
    &&& s.slot matches Slot::OpenScan { scan } ==> scan == i as usize
}

/// The steps between the opening of a scan and the next one are about that scan alone.
pub proof fn lemma_scan_steps_about_scan(
    b: Benchmark,
    scans: Seq<Scan>,
    i: int,
    columns: Seq<Column>,
    compaction: bool,
)
    requires
        0 <= i < scans.len(),
    ensures
        course::each(run::scan_steps(b, scans, i, columns, compaction), |s: Step| about(s, i)),
{
    let p = |s: Step| about(s, i);
    course::lemma_each_scan(b, scans, i, columns, compaction, p);
}

/// What a step leaves in the records of a run: what it files, or that it compacts, waits or prints a
/// marker.
pub open spec fn trace_of(s: Step) -> Seq<(Slot, Action)> {
    if s.slot != Slot::Nowhere {
        seq![(s.slot, Action::Nothing)]
    } else if s.action is Compact || s.action is Quiesce || s.action is Mark {
        seq![(Slot::Nowhere, s.action)]
    } else {
        Seq::empty()
    }
}

/// What the steps leave, in order.
pub open spec fn trail(steps: Seq<Step>) -> Seq<(Slot, Action)>
    decreases steps.len(),
{
    if steps.len() == 0 {
        Seq::empty()
    } else {
        trail(steps.drop_last()) + trace_of(steps.last())
    }
}

proof fn lemma_trail_add(a: Seq<Step>, b: Seq<Step>)
    ensures
        trail(a + b) == trail(a) + trail(b),
    decreases b.len(),
{
    if b.len() == 0 {
        assert(a + b =~= a);
        assert(trail(a) + trail(b) =~= trail(a));
    } else {
        lemma_trail_add(a, b.drop_last());
        assert((a + b).drop_last() =~= a + b.drop_last());
        assert((a + b).last() == b.last());
        assert(trail(a + b) =~= trail(a) + trail(b));
    }
}

proof fn lemma_trail_one(s: Step)
    ensures
        trail(seq![s]) == trace_of(s),
{
    reveal_with_fuel(trail, 2);
    assert(seq![s].drop_last() =~= Seq::empty());
    assert(trail(seq![s]) =~= trace_of(s));
}

pub open spec fn filed(slot: Slot) -> (Slot, Action) {
    (slot, Action::Nothing)
}

proof fn lemma_all_filed(steps: Seq<Step>)
    requires
        forall|k: int| 0 <= k < steps.len() ==> (#[trigger] steps[k]).slot != Slot::Nowhere,
    ensures
        trail(steps) == Seq::new(steps.len(), |k: int| filed(steps[k].slot)),
    decreases steps.len(),
{
    if steps.len() > 0 {
        let head = steps.drop_last();
        assert forall|k: int| 0 <= k < head.len() implies (#[trigger] head[k]).slot
            != Slot::Nowhere by {
            assert(head[k] == steps[k]);
        }
        lemma_all_filed(head);
        assert(steps[steps.len() - 1].slot != Slot::Nowhere);
    }
    assert(trail(steps) =~= Seq::new(steps.len(), |k: int| filed(steps[k].slot)));
}

proof fn lemma_none_filed(steps: Seq<Step>)
    requires
        forall|k: int| 0 <= k < steps.len() ==> trace_of(#[trigger] steps[k]).len() == 0,
    ensures
        trail(steps) == Seq::<(Slot, Action)>::empty(),
    decreases steps.len(),
{
    if steps.len() > 0 {
        let head = steps.drop_last();
        assert forall|k: int| 0 <= k < head.len() implies trace_of(#[trigger] head[k]).len() == 0 by {
            assert(head[k] == steps[k]);
        }
        lemma_none_filed(head);
        assert(trace_of(steps[steps.len() - 1]).len() == 0);
        assert(trail(steps) =~= Seq::<(Slot, Action)>::empty());
    }
}

/// A marker line, where markers are printed.
pub open spec fn marked(b: Benchmark, marker: Marker) -> Seq<(Slot, Action)> {
    if b.emit_phase_markers {
        seq![(Slot::Nowhere, Action::Mark { marker })]
    } else {
        Seq::empty()
    }
}

/// A compaction, where compactions are asked for: announced, run, waited for and reported.
pub open spec fn compacted(b: Benchmark, compaction: bool) -> Seq<(Slot, Action)> {
    if compaction {
        marked(b, Marker::CompactionStarting) + seq![
            (Slot::Nowhere, Action::Compact),
            (Slot::Nowhere, Action::Quiesce),
        ] + marked(b, Marker::ServerIdle)
    } else {
        Seq::empty()
    }
}

/// The legs of a scan: a plain read, then one with writes per entry of its write list.
pub open spec fn leg_slots(scan: Scan, indexed: bool) -> Seq<(Slot, Action)> {
    Seq::new(
        1 + scan.with_writes@.len(),
        |k: int|
            filed(
                Slot::Leg {
                    workload: if k == 0 {
                        ScanWorkload::Read
                    } else {
                        ScanWorkload::ReadWrite {
                            write_ratio_percent: scan.with_writes@[k - 1].write_ratio_percent,
                        }
                    },
                    indexed,
                },
            ),
    )
}

/// Whether a column of the name holds vectors.
pub open spec fn is_vector_column(columns: Seq<Column>, field: Seq<char>) -> bool {
    exists|k: int|
        0 <= k < columns.len() && (#[trigger] columns[k]).name@ == field && columns[k].vector is Some
}

/// What a scan leaves: its opening; for a vector search on a vector column the index, the search and
/// the drop; for a scan that is to be indexed the legs without, the index, the legs with it and the
/// drop; for any other scan the legs without an index. A new index is compacted before its use.
pub open spec fn scan_slots(
    b: Benchmark,
    scan: Scan,
    i: int,
    columns: Seq<Column>,
    compaction: bool,
) -> Seq<(Slot, Action)> {
    seq![filed(Slot::OpenScan { scan: i as usize })] + (if scan.vector_query is Some {
        if is_vector_column(columns, scan.vector_query->0.field@) {
            seq![filed(Slot::IndexBuild)] + compacted(b, compaction) + seq![
                filed(
                    Slot::Leg {
                        workload: ScanWorkload::Read,
                        indexed: scan.vector_query->0.index_strategy
                            != VectorIndexStrategy::Bruteforce,
                    },
                ),
                filed(Slot::IndexRemove),
            ]
        } else {
            Seq::empty()
        }
    } else if scan.with_index is Some && !scan.with_index->0.skip {
        leg_slots(scan, false) + seq![filed(Slot::IndexBuild)] + compacted(b, compaction)
            + leg_slots(scan, true) + seq![filed(Slot::IndexRemove)]
    } else {
        leg_slots(scan, false)
    })
}

pub open spec fn all_scan_slots(
    b: Benchmark,
    scans: Seq<Scan>,
    n: nat,
    columns: Seq<Column>,
    compaction: bool,
) -> Seq<(Slot, Action)>
    decreases n,
{
    if n == 0 {
        Seq::empty()
    } else {
        all_scan_slots(b, scans, (n - 1) as nat, columns, compaction) + scan_slots(
            b,
            scans[n - 1],
            n - 1,
            columns,
            compaction,
        )
    }
}

/// A vector search knows the length of its vectors exactly where its field is a vector column, and
/// the length is that of the first such column.
pub proof fn lemma_vector_length(columns: Seq<Column>, field: Seq<char>, n: nat)
    requires
        n <= columns.len(),
    ensures
        match run::vector_length(columns, field, n) {
            Some(dim) => exists|k: int|
                {
                    &&& 0 <= k < n
                    &&& (#[trigger] columns[k]).name@ == field
                    &&& columns[k].vector == Some(dim)
                    &&& forall|j: int|
                        0 <= j < k ==> !((#[trigger] columns[j]).name@ == field
                            && columns[j].vector is Some)
                },
            None => forall|j: int|
                0 <= j < n ==> !((#[trigger] columns[j]).name@ == field && columns[j].vector
                    is Some),
        },
    decreases n,
{
    if n > 0 {
        lemma_vector_length(columns, field, (n - 1) as nat);
        if run::vector_length(columns, field, (n - 1) as nat) is None {
            assert(columns[n - 1].name@ == field || columns[n - 1].name@ != field);
        }
    }
}

proof fn lemma_leg_filings(b: Benchmark, scan: Scan, i: int, guard: Guard, context: ScanContext)
    ensures
        trail(run::scan_legs(b, scan, i, guard, context)) == leg_slots(
            scan,
            context == ScanContext::WithIndex,
        ),
{
    let steps = run::scan_legs(b, scan, i, guard, context);
    assert forall|k: int| 0 <= k < steps.len() implies (#[trigger] steps[k]).slot
        != Slot::Nowhere by {
        if k > 0 {
            assert(steps[k] == run::mixed_legs(b, scan, i, guard, context)[k - 1]);
        }
    }
    lemma_all_filed(steps);
    let indexed = context == ScanContext::WithIndex;
    assert(trail(steps) =~= leg_slots(scan, indexed)) by {
        assert forall|k: int| 0 < k < steps.len() implies filed((#[trigger] steps[k]).slot) == leg_slots(
            scan,
            indexed,
        )[k] by {
            assert(steps[k] == run::mixed_legs(b, scan, i, guard, context)[k - 1]);
        }
    }
}

proof fn lemma_marks_trail(b: Benchmark, guard: Guard, marker: Marker)
    ensures
        trail(run::marks(b, guard, marker)) == marked(b, marker),
{
    let step = Step { guard, action: Action::Mark { marker }, slot: Slot::Nowhere };
    lemma_trail_one(step);
    lemma_none_filed(Seq::empty());
}

proof fn lemma_compaction_trail(b: Benchmark, compaction: bool, guard: Guard)
    ensures
        trail(run::compaction_steps(b, compaction, guard)) == compacted(b, compaction),
{
    lemma_none_filed(Seq::empty());
    let first = run::marks(b, guard, Marker::CompactionStarting);
    let last = run::marks(b, guard, Marker::ServerIdle);
    let one = Step { guard, action: Action::Compact, slot: Slot::Nowhere };
    let two = Step { guard, action: Action::Quiesce, slot: Slot::Nowhere };
    let middle = seq![one, two];
    assert(middle =~= seq![one] + seq![two]);
    lemma_marks_trail(b, guard, Marker::CompactionStarting);
    lemma_marks_trail(b, guard, Marker::ServerIdle);
    lemma_trail_one(one);
    lemma_trail_one(two);
    lemma_trail_add(seq![one], seq![two]);
    lemma_trail_add(first, middle);
    lemma_trail_add(first + middle, last);
    assert(trail(run::compaction_steps(b, compaction, guard)) =~= compacted(b, compaction));
}

#[verifier::spinoff_prover]
proof fn lemma_body_filings(b: Benchmark, scan: Scan, i: int, columns: Seq<Column>, compaction: bool)
    ensures
        seq![filed(Slot::OpenScan { scan: i as usize })] + trail(
            run::scan_body(b, scan, i, columns, compaction),
        ) == scan_slots(b, scan, i, columns, compaction),
{
    let compact = run::compaction_steps(b, compaction, Guard::Built);
    lemma_compaction_trail(b, compaction, Guard::Built);
    let body = run::scan_body(b, scan, i, columns, compaction);
    if scan.vector_query is Some {
        let query = scan.vector_query->0;
        lemma_vector_length(columns, query.field@, columns.len());
        match run::vector_length(columns, query.field@, columns.len()) {
            Some(dim) => {
                assert(is_vector_column(columns, query.field@));
                let first = body.take(2);
                let last = body.skip((2 + compact.len()) as int);
                assert(body =~= first + compact + last);
                lemma_trail_add(first + compact, last);
                lemma_trail_add(first, compact);
                assert(first =~= seq![first[0]] + seq![first[1]]);
                assert(last =~= seq![last[0]] + seq![last[1]]);
                lemma_trail_add(seq![first[0]], seq![first[1]]);
                lemma_trail_add(seq![last[0]], seq![last[1]]);
                lemma_trail_one(first[0]);
                lemma_trail_one(first[1]);
                lemma_trail_one(last[0]);
                lemma_trail_one(last[1]);
                assert(trail(first) =~= seq![filed(Slot::IndexBuild)]);
                assert(trail(last) =~= seq![filed(last[0].slot), filed(Slot::IndexRemove)]);
                assert(trail(body) =~= trail(first) + compacted(b, compaction) + trail(last));
                assert(seq![filed(Slot::OpenScan { scan: i as usize })] + trail(body)
                    =~= scan_slots(b, scan, i, columns, compaction));
            },
            None => {
                assert(!is_vector_column(columns, query.field@));
                lemma_none_filed(body);
            },
        }
    } else {
        let heap = run::scan_legs(b, scan, i, Guard::Always, ScanContext::WithoutIndex);
        let indexed = run::scan_legs(b, scan, i, Guard::Built, ScanContext::WithIndex);
        lemma_leg_filings(b, scan, i, Guard::Always, ScanContext::WithoutIndex);
        lemma_leg_filings(b, scan, i, Guard::Built, ScanContext::WithIndex);
        if run::wants_index(scan) {
            let build = seq![
                run::once(
                    Guard::Always,
                    BenchmarkOperation::BuildIndex { scan: i as usize },
                    Slot::IndexBuild,
                ),
            ];
            let remove = seq![
                run::once(
                    Guard::Built,
                    BenchmarkOperation::RemoveIndex { scan: i as usize },
                    Slot::IndexRemove,
                ),
            ];
            lemma_all_filed(build);
            lemma_all_filed(remove);
            lemma_trail_add(heap, build);
            lemma_trail_add(heap + build, compact);
            lemma_trail_add(heap + build + compact, indexed);
            lemma_trail_add(heap + build + compact + indexed, remove);
            assert(trail(build) =~= seq![filed(Slot::IndexBuild)]);
            assert(trail(remove) =~= seq![filed(Slot::IndexRemove)]);
            assert(trail(body) =~= leg_slots(scan, false) + seq![filed(Slot::IndexBuild)] + compacted(
                b,
                compaction,
            ) + leg_slots(scan, true) + seq![filed(Slot::IndexRemove)]);
        }
    }
}

proof fn lemma_scan_filings(
    b: Benchmark,
    scans: Seq<Scan>,
    n: nat,
    columns: Seq<Column>,
    compaction: bool,
)
    requires
        n <= scans.len(),
    ensures
        trail(run::all_scan_steps(b, scans, n, columns, compaction)) == all_scan_slots(
            b,
            scans,
            n,
            columns,
            compaction,
        ),
    decreases n,
{
    if n > 0 {
        let i = n - 1;
        lemma_scan_filings(b, scans, i as nat, columns, compaction);
        let before = run::all_scan_steps(b, scans, i as nat, columns, compaction);
        let head = run::scan_heading(scans, i);
        let open = seq![run::skipped(Slot::OpenScan { scan: i as usize })];
        let body = run::scan_body(b, scans[i], i, columns, compaction);
        lemma_trail_add(before, head + open + body);
        lemma_trail_add(head + open, body);
        lemma_trail_add(head, open);
        lemma_none_filed(head);
        lemma_all_filed(open);
        assert(trail(open) =~= seq![filed(Slot::OpenScan { scan: i as usize })]);
        lemma_body_filings(b, scans[i], i, columns, compaction);
        assert(trail(head + open + body) =~= scan_slots(b, scans[i], i, columns, compaction));
    }
}

/// The batches in their order.
pub open spec fn batch_slots(n: nat) -> Seq<(Slot, Action)> {
    Seq::new(n, |k: int| filed(Slot::Batch { batch: k as usize }))
}

#[verifier::spinoff_prover]
proof fn lemma_batch_filings(b: Benchmark, batches: Seq<BatchOperation>)
    ensures
        trail(run::batch_steps(b, batches)) == batch_slots(batches.len()),
{
    let steps = run::batch_steps(b, batches);
    let each = Seq::new(batches.len(), |i: int| run::batch_step(b, batches[i], i));
    let head = if batches.len() > 0 {
        seq![run::always(Action::Head { heading: Heading::Batches })]
    } else {
        Seq::empty()
    };
    lemma_trail_add(head, each);
    lemma_none_filed(head);
    lemma_all_filed(each);
    assert(trail(steps) =~= batch_slots(batches.len()));
}

#[verifier::spinoff_prover]
proof fn lemma_record_filings(b: Benchmark, compaction: bool)
    ensures
        trail(run::record_steps(b, compaction)) == record_slots(b, compaction),
{
    let compact = run::compaction_steps(b, compaction, Guard::Always);
    lemma_compaction_trail(b, compaction, Guard::Always);
    let x = run::write_phase(b, BenchmarkOperation::Create, Slot::Creates);
    let y = run::timed(Guard::Always, BenchmarkOperation::Read, b.samples, Slot::Reads);
    let z = run::write_phase(b, BenchmarkOperation::Update, Slot::Updates);
    lemma_trail_one(x);
    lemma_trail_one(y);
    lemma_trail_one(z);
    lemma_trail_add(seq![x], compact);
    lemma_trail_add(seq![x] + compact, seq![y]);
    lemma_trail_add(seq![x] + compact + seq![y], compact);
    lemma_trail_add(seq![x] + compact + seq![y] + compact, seq![z]);
    lemma_trail_add(seq![x] + compact + seq![y] + compact + seq![z], compact);
    assert(trail(run::record_steps(b, compaction)) =~= record_slots(b, compaction));
}

/// Creates, reads and updates, each followed by a compaction.
pub open spec fn record_slots(b: Benchmark, compaction: bool) -> Seq<(Slot, Action)> {
    let c = compacted(b, compaction);
    seq![filed(Slot::Creates)] + c + seq![filed(Slot::Reads)] + c + seq![filed(Slot::Updates)] + c
}

/// What a run leaves, in its order: creates, reads and updates, then every scan with its legs, then
/// deletes, then every batch, each once; a compaction after each of the record phases and before the
/// deletes; a marker at the start and at the end. A steady-state run leaves only the markers.
#[verifier::spinoff_prover]
pub proof fn lemma_filed_in_order(
    b: Benchmark,
    c: Catalog,
    columns: Seq<Column>,
    compaction: bool,
)
    ensures
        b.suite == Suite::SteadyState ==> trail(run::agenda(b, c, columns, compaction)) == marked(
            b,
            Marker::BenchmarkStarting,
        ) + marked(b, Marker::BenchmarkComplete),
        b.suite == Suite::Crud ==> trail(run::agenda(b, c, columns, compaction)) == marked(
            b,
            Marker::BenchmarkStarting,
        ) + record_slots(b, compaction) + all_scan_slots(
            b,
            c.scans@,
            c.scans@.len(),
            columns,
            compaction,
        ) + compacted(b, compaction) + seq![filed(Slot::Deletes)] + compacted(b, compaction)
            + batch_slots(c.batches@.len()) + marked(b, Marker::BenchmarkComplete),
{
    let opening = run::opening_steps(b);
    let closing = run::closing_steps(b);
    let three = seq![
        run::always(Action::Announce),
        run::always(Action::Startup),
        run::always(Action::Connect),
    ];
    let shutdown = seq![run::always(Action::Shutdown)];
    let start = run::marks(b, Guard::Always, Marker::BenchmarkStarting);
    let end = run::marks(b, Guard::Always, Marker::BenchmarkComplete);
    lemma_none_filed(three);
    lemma_none_filed(shutdown);
    lemma_marks_trail(b, Guard::Always, Marker::BenchmarkStarting);
    lemma_marks_trail(b, Guard::Always, Marker::BenchmarkComplete);
    lemma_trail_add(three, start);
    lemma_trail_add(end, shutdown);
    assert(trail(opening) =~= marked(b, Marker::BenchmarkStarting));
    assert(trail(closing) =~= marked(b, Marker::BenchmarkComplete));
    if b.suite == Suite::SteadyState {
        let one = seq![run::always(Action::SteadyState)];
        lemma_none_filed(one);
        lemma_trail_add(opening, one);
        lemma_trail_add(opening + one, closing);
        assert(trail(run::agenda(b, c, columns, compaction)) =~= marked(
            b,
            Marker::BenchmarkStarting,
        ) + marked(b, Marker::BenchmarkComplete));
    } else {
        let n = c.scans@.len();
        let records = run::record_steps(b, compaction);
        let scans = run::all_scan_steps(b, c.scans@, n, columns, compaction);
        let compact = run::compaction_steps(b, compaction, Guard::Always);
        let deletes = run::delete_steps(b);
        let batches = run::batch_steps(b, c.batches@);
        lemma_record_filings(b, compaction);
        lemma_scan_filings(b, c.scans@, n, columns, compaction);
        lemma_compaction_trail(b, compaction, Guard::Always);
        lemma_batch_filings(b, c.batches@);
        assert(deletes =~= seq![deletes[0]] + seq![deletes[1]]);
        lemma_trail_one(deletes[0]);
        lemma_trail_one(deletes[1]);
        lemma_trail_add(seq![deletes[0]], seq![deletes[1]]);
        assert(trail(deletes) =~= seq![filed(Slot::Deletes)]);
        lemma_trail_add(opening, records);
        lemma_trail_add(opening + records, scans);
        lemma_trail_add(opening + records + scans, compact);
        lemma_trail_add(opening + records + scans + compact, deletes);
        lemma_trail_add(opening + records + scans + compact + deletes, compact);
        lemma_trail_add(opening + records + scans + compact + deletes + compact, batches);
        lemma_trail_add(
            opening + records + scans + compact + deletes + compact + batches,
            closing,
        );
    }
}

/// A run announces its clients, starts the datastore and connects before anything else, shuts the
/// datastore down last of all, compacts only where that was asked for, and prints marker lines only
/// where they were; a CRUD run runs no steady-state rows and a steady-state run times no phase.
#[verifier::spinoff_prover]
pub proof fn lemma_run_framed(
    b: Benchmark,
    c: Catalog,
    columns: Seq<Column>,
    compaction: bool,
)
    ensures
        ({
            let steps = run::agenda(b, c, columns, compaction);
            &&& steps.len() >= 4
            &&& steps[0].action == Action::Announce
            &&& steps[1].action == Action::Startup
            &&& steps[2].action == Action::Connect
            &&& b.emit_phase_markers ==> steps[3].action == (Action::Mark {
                marker: Marker::BenchmarkStarting,
            })
            &&& steps.last().action == Action::Shutdown
            &&& b.emit_phase_markers ==> steps[steps.len() - 2].action == (Action::Mark {
                marker: Marker::BenchmarkComplete,
            })
            &&& course::each(
                steps,
                |s: Step|
                    {
                        &&& s.action is Compact || s.action is Quiesce ==> compaction
                        &&& s.action is Mark ==> b.emit_phase_markers
                        &&& s.action is SteadyState ==> b.suite == Suite::SteadyState
                        &&& s.action is Operate ==> b.suite == Suite::Crud
                    },
            )
        }),
{
    let steps = run::agenda(b, c, columns, compaction);
    let p = |s: Step|
        {
            &&& s.action is Compact || s.action is Quiesce ==> compaction
            &&& s.action is Mark ==> b.emit_phase_markers
            &&& s.action is SteadyState ==> b.suite == Suite::SteadyState
            &&& s.action is Operate ==> b.suite == Suite::Crud
        };
    let opening = run::opening_steps(b);
    let closing = run::closing_steps(b);
    assert(opening.len() >= 3);
    assert(closing.len() >= 1);
    if b.suite == Suite::SteadyState {
        let one = seq![run::always(Action::SteadyState)];
        assert(course::each(opening, p));
        assert(course::each(closing, p));
        assert(course::each(one, p));
        course::lemma_each_add(opening, one, p);
        course::lemma_each_add(opening + one, closing, p);
    } else {
        lemma_crud_framed(b, c, columns, compaction);
    }
}

proof fn lemma_crud_framed(
    b: Benchmark,
    c: Catalog,
    columns: Seq<Column>,
    compaction: bool,
)
    requires
        b.suite == Suite::Crud,
    ensures
        course::each(
            run::agenda(b, c, columns, compaction),
            |s: Step|
                {
                    &&& s.action is Compact || s.action is Quiesce ==> compaction
                    &&& s.action is Mark ==> b.emit_phase_markers
                    &&& s.action is SteadyState ==> b.suite == Suite::SteadyState
                    &&& s.action is Operate ==> b.suite == Suite::Crud
                },
        ),
{
    let p = |s: Step|
        {
            &&& s.action is Compact || s.action is Quiesce ==> compaction
            &&& s.action is Mark ==> b.emit_phase_markers
            &&& s.action is SteadyState ==> b.suite == Suite::SteadyState
            &&& s.action is Operate ==> b.suite == Suite::Crud
        };
    let opening = run::opening_steps(b);
    let closing = run::closing_steps(b);
    let records = run::record_steps(b, compaction);
    let compact = run::compaction_steps(b, compaction, Guard::Always);
    let n = c.scans@.len();
    let scans = run::all_scan_steps(b, c.scans@, n, columns, compaction);
    let deletes = run::delete_steps(b);
    let batches = run::batch_steps(b, c.batches@);
    assert forall|i: int| 0 <= i < c.scans@.len() implies course::each(
        #[trigger] run::scan_steps(b, c.scans@, i, columns, compaction),
        p,
    ) by {
        course::lemma_each_scan(b, c.scans@, i, columns, compaction, p);
    }
    course::lemma_each_scans(b, c.scans@, n, columns, compaction, p);
    assert(course::each(opening, p));
    assert(course::each(closing, p));
    assert(course::each(compact, p));
    assert(course::each(records, p));
    assert(course::each(deletes, p));
    assert(course::each(batches, p));
    course::lemma_each_add(opening, records, p);
    course::lemma_each_add(opening + records, scans, p);
    course::lemma_each_add(opening + records + scans, compact, p);
    course::lemma_each_add(opening + records + scans + compact, deletes, p);
    course::lemma_each_add(opening + records + scans + compact + deletes, compact, p);
    course::lemma_each_add(opening + records + scans + compact + deletes + compact, batches, p);
    course::lemma_each_add(
        opening + records + scans + compact + deletes + compact + batches,
        closing,
        p,
    );
}

} // verus!
