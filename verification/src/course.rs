//! A run in progress: what comes next, and the results filed so far.
use crate::failure::Failure;
use crate::operation::{BenchmarkOperation, Catalog, Scan, ScanContext};
use crate::run;
use crate::run::{iterations, plan, refusal, Action, Column, Guard, ScanWorkload, Slot, Step};
use crate::settings::Benchmark;
use vstd::prelude::*;

verus! {

/// One timed leg of a scan; a leg that did not run has no result.
pub struct ScanRun<R> {
    pub workload: ScanWorkload,
    pub indexed: bool,
    pub result: Option<R>,
}

/// The results of a scan.
pub struct ScanResult<R> {
    pub id: String,
    pub name: String,
    pub iterations: u32,
    pub index_build: Option<R>,
    pub index_remove: Option<R>,
    pub runs: Vec<ScanRun<R>>,
}

/// The result of a batch.
pub struct BatchResult<R> {
    pub name: String,
    pub iterations: u32,
    pub groups: usize,
    pub result: Option<R>,
}

/// What came of a step.
pub enum Outcome<R> {
    Done,
    /// Whether the query set could be built.
    Found { found: bool },
    /// What was measured; nothing where the datastore does not support the operation.
    Measured { result: Option<R> },
}

/// What is filed for a scan.
pub struct ScanRows<R> {
    pub id: Seq<char>,
    pub name: Seq<char>,
    pub iterations: u32,
    pub index_build: Option<R>,
    pub index_remove: Option<R>,
    pub runs: Seq<ScanRun<R>>,
}

/// What is filed for a batch.
pub struct BatchRow<R> {
    pub name: Seq<char>,
    pub iterations: u32,
    pub groups: usize,
    pub result: Option<R>,
}

impl<R> View for ScanResult<R> {
    type V = ScanRows<R>;

    open spec fn view(&self) -> ScanRows<R> {
        ScanRows {
            id: self.id@,
            name: self.name@,
            iterations: self.iterations,
            index_build: self.index_build,
            index_remove: self.index_remove,
            runs: self.runs@,
        }
    }
}

impl<R> View for BatchResult<R> {
    type V = BatchRow<R>;

    open spec fn view(&self) -> BatchRow<R> {
        BatchRow {
            name: self.name@,
            iterations: self.iterations,
            groups: self.groups,
            result: self.result,
        }
    }
}

/// How far a run has come, and what it has filed.
pub struct Ledger<R> {
    pub at: int,
    pub found: bool,
    pub built: bool,
    pub creates: Option<R>,
    pub reads: Option<R>,
    pub updates: Option<R>,
    pub deletes: Option<R>,
    pub scans: Seq<ScanRows<R>>,
    pub batches: Seq<BatchRow<R>>,
}

impl<R> Ledger<R> {
    pub open spec fn empty() -> Self {
        Ledger {
            at: 0,
            found: false,
            built: false,
            creates: None,
            reads: None,
            updates: None,
            deletes: None,
            scans: Seq::empty(),
            batches: Seq::empty(),
        }
    }

    pub open spec fn holds(self, guard: Guard) -> bool {
        match guard {
            Guard::Always => true,
            Guard::Found => self.found,
            Guard::Built => self.built,
        }
    }

    /// Whether the step passes without anything being done.
    pub open spec fn passes(self, step: Step) -> bool {
        !self.holds(step.guard) || step.action == Action::Nothing
    }

    pub open spec fn with_scan(self, rows: ScanRows<R>) -> Self {
        if self.scans.len() == 0 {
            self
        } else {
            Ledger { scans: self.scans.update(self.scans.len() - 1, rows), ..self }
        }
    }

    /// The ledger with a result put into its slot.
    pub open spec fn filed(self, slot: Slot, result: Option<R>, c: Catalog, samples: u32) -> Self {
        match slot {
            Slot::Nowhere => self,
            Slot::Creates => Ledger { creates: result, ..self },
            Slot::Reads => Ledger { reads: result, ..self },
            Slot::Updates => Ledger { updates: result, ..self },
            Slot::Deletes => Ledger { deletes: result, ..self },
            Slot::OpenScan { scan } => Ledger {
                found: false,
                built: false,
                scans: self.scans.push(
                    ScanRows {
                        id: c.scans@[scan as int].id@,
                        name: c.scans@[scan as int].name@,
                        iterations: run::iterations_of(samples, c.scans@[scan as int].iterations),
                        index_build: None,
                        index_remove: None,
                        runs: Seq::empty(),
                    },
                ),
                ..self
            },
            Slot::Leg { workload, indexed } => self.with_scan(
                ScanRows {
                    runs: self.scans.last().runs.push(ScanRun { workload, indexed, result }),
                    ..self.scans.last()
                },
            ),
            Slot::IndexBuild => Ledger { built: result is Some, ..self }.with_scan(
                ScanRows { index_build: result, ..self.scans.last() },
            ),
            Slot::IndexRemove => self.with_scan(
                ScanRows { index_remove: result, ..self.scans.last() },
            ),
            Slot::Batch { batch } => Ledger {
                batches: self.batches.push(
                    BatchRow {
                        name: c.batches@[batch as int].name@,
                        iterations: run::iterations_of(
                            samples,
                            c.batches@[batch as int].iterations,
                        ),
                        groups: c.batches@[batch as int].batch_size,
                        result,
                    },
                ),
                ..self
            },
        }
    }

    pub open spec fn moved(self) -> Self {
        Ledger { at: self.at + 1, ..self }
    }

    /// The ledger after a step was passed.
    pub open spec fn passed(self, step: Step, c: Catalog, samples: u32) -> Self {
        self.filed(step.slot, None, c, samples).moved()
    }

    /// The ledger after a step was done.
    pub open spec fn done(self, step: Step, outcome: Outcome<R>, c: Catalog, samples: u32) -> Self {
        match outcome {
            Outcome::Done => self.filed(step.slot, None, c, samples).moved(),
            Outcome::Found { found } => (Ledger {
                found,
                ..self.filed(step.slot, None, c, samples)
            }).moved(),
            Outcome::Measured { result } => self.filed(step.slot, result, c, samples).moved(),
        }
    }

    /// The ledger after passing every step up to one that has to be done.
    pub open spec fn settled(self, steps: Seq<Step>, c: Catalog, samples: u32) -> Self
        decreases steps.len() - self.at,
    {
        if 0 <= self.at < steps.len() && self.passes(steps[self.at]) {
            self.passed(steps[self.at], c, samples).settled(steps, c, samples)
        } else {
            self
        }
    }
}

/// Whether the positions that a step holds exist.
pub open spec fn known(step: Step, c: Catalog) -> bool {
    &&& match step.action {
        Action::Head { heading } => heading.known_to(c),
        Action::Queries { scan } => scan < c.scans@.len() && c.scans@[scan as int].vector_query
            is Some,
        Action::Operate { operation, .. } => operation.known_to(c),
        Action::Refuse { scan } => scan < c.scans@.len() && c.scans@[scan as int].vector_query
            is Some,
        _ => true,
    }
    &&& match step.slot {
        Slot::OpenScan { scan } => scan < c.scans@.len(),
        Slot::Batch { batch } => batch < c.batches@.len(),
        _ => true,
    }
}

/// A benchmark run in progress.
pub struct Run<R> {
    pub catalog: Catalog,
    pub samples: u32,
    pub agenda: Vec<Step>,
    pub at: usize,
    pub found: bool,
    pub built: bool,
    pub creates: Option<R>,
    pub reads: Option<R>,
    pub updates: Option<R>,
    pub deletes: Option<R>,
    pub scans: Vec<ScanResult<R>>,
    pub batches: Vec<BatchResult<R>>,
}

pub open spec fn scan_views<R>(s: Seq<ScanResult<R>>) -> Seq<ScanRows<R>> {
    Seq::new(s.len(), |i: int| s[i]@)
}

pub open spec fn batch_views<R>(s: Seq<BatchResult<R>>) -> Seq<BatchRow<R>> {
    Seq::new(s.len(), |i: int| s[i]@)
}

impl<R> Run<R> {
    /// How far the run has come, and what it has filed.
    pub open spec fn ledger(self) -> Ledger<R> {
        Ledger {
            at: self.at as int,
            found: self.found,
            built: self.built,
            creates: self.creates,
            reads: self.reads,
            updates: self.updates,
            deletes: self.deletes,
            scans: scan_views(self.scans@),
            batches: batch_views(self.batches@),
        }
    }

    pub open spec fn wf(self) -> bool {
        &&& self.at <= self.agenda@.len()
        &&& forall|k: int|
            0 <= k < self.agenda@.len() ==> known(#[trigger] self.agenda@[k], self.catalog)
    }

    /// What a step leaves as it was.
    pub open spec fn same_plan(self, other: Self) -> bool {
        self.catalog == other.catalog && self.samples == other.samples && self.agenda
            == other.agenda
    }

    /// A run that has done nothing yet. `compaction` tells whether the datastore is compacted
    /// between phases.
    pub fn new(
        benchmark: &Benchmark,
        catalog: Catalog,
        columns: &Vec<Column>,
        compaction: bool,
    ) -> (r: Self)
        ensures
            r.wf(),
            r.catalog == catalog,
            r.samples == benchmark.samples,
            r.agenda@ == run::agenda(*benchmark, catalog, columns@, compaction),
            r.ledger() == Ledger::<R>::empty(),
    {
        let agenda: Vec<Step> = plan(benchmark, &catalog, columns, compaction);
        proof {
            lemma_agenda_known(*benchmark, catalog, columns@, compaction);
            let p = |s: Step| known(s, catalog);
            assert forall|k: int| 0 <= k < agenda@.len() implies known(
                #[trigger] agenda@[k],
                catalog,
            ) by {
                assert(p(agenda@[k]));
            }
        }
        let r: Run<R> = Run {
            catalog,
            samples: benchmark.samples,
            agenda,
            at: 0,
            found: false,
            built: false,
            creates: None,
            reads: None,
            updates: None,
            deletes: None,
            scans: Vec::new(),
            batches: Vec::new(),
        };
        assert(scan_views(r.scans@) =~= Seq::empty());
        assert(batch_views(r.batches@) =~= Seq::empty());
        r
    }

    /// Puts a result into its slot.
    fn file(&mut self, slot: Slot, result: Option<R>)
        requires
            slot matches Slot::OpenScan { scan } ==> scan < old(self).catalog.scans@.len(),
            slot matches Slot::Batch { batch } ==> batch < old(self).catalog.batches@.len(),
        ensures
            final(self).ledger() == old(self).ledger().filed(
                slot,
                result,
                old(self).catalog,
                old(self).samples,
            ),
            final(self).same_plan(*old(self)),
            final(self).at == old(self).at,
    {
        let ghost before = scan_views(self.scans@);
        match slot {
            Slot::Nowhere => {},
            Slot::Creates => {
                self.creates = result;
            },
            Slot::Reads => {
                self.reads = result;
            },
            Slot::Updates => {
                self.updates = result;
            },
            Slot::Deletes => {
                self.deletes = result;
            },
            Slot::OpenScan { scan } => {
                let row: ScanResult<R> = ScanResult {
                    id: self.catalog.scans[scan].id.clone(),
                    name: self.catalog.scans[scan].name.clone(),
                    iterations: iterations(self.samples, self.catalog.scans[scan].iterations),
                    index_build: None,
                    index_remove: None,
                    runs: Vec::new(),
                };
                self.found = false;
                self.built = false;
                let ghost view = row@;
                assert(view.runs =~= Seq::empty());
                self.scans.push(row);
                assert(scan_views(self.scans@) =~= before.push(view));
            },
            Slot::Leg { workload, indexed } => {
                if let Some(mut row) = self.scans.pop() {
                    row.runs.push(ScanRun { workload, indexed, result });
                    let ghost view = row@;
                    self.scans.push(row);
                    assert(scan_views(self.scans@) =~= before.update(before.len() - 1, view));
                }
            },
            Slot::IndexBuild => {
                self.built = result.is_some();
                if let Some(mut row) = self.scans.pop() {
                    row.index_build = result;
                    let ghost view = row@;
                    self.scans.push(row);
                    assert(scan_views(self.scans@) =~= before.update(before.len() - 1, view));
                }
            },
            Slot::IndexRemove => {
                if let Some(mut row) = self.scans.pop() {
                    row.index_remove = result;
                    let ghost view = row@;
                    self.scans.push(row);
                    assert(scan_views(self.scans@) =~= before.update(before.len() - 1, view));
                }
            },
            Slot::Batch { batch } => {
                let ghost old_batches = batch_views(self.batches@);
                let row: BatchResult<R> = BatchResult {
                    name: self.catalog.batches[batch].name.clone(),
                    iterations: iterations(
                        self.samples,
                        self.catalog.batches[batch].iterations,
                    ),
                    groups: self.catalog.batches[batch].batch_size,
                    result,
                };
                let ghost view = row@;
                self.batches.push(row);
                assert(batch_views(self.batches@) =~= old_batches.push(view));
            },
        }
    }

    fn holds(&self, guard: Guard) -> (r: bool)
        ensures
            r == self.ledger().holds(guard),
    {
        match guard {
            Guard::Always => true,
            Guard::Found => self.found,
            Guard::Built => self.built,
        }
    }

    /// The next step that has to be done; none where the run is over. A run that cannot go on
    /// stays where it is.
    pub fn next(&mut self) -> (r: Result<Option<Step>, Failure>)
        requires
            old(self).wf(),
        ensures
            final(self).wf(),
            final(self).same_plan(*old(self)),
            final(self).ledger() == old(self).ledger().settled(
                old(self).agenda@,
                old(self).catalog,
                old(self).samples,
            ),
            match r {
                Ok(None) => final(self).at == old(self).agenda@.len(),
                Ok(Some(step)) => {
                    &&& final(self).at < old(self).agenda@.len()
                    &&& step == old(self).agenda@[final(self).at as int]
                    &&& !(step.action is Refuse)
                },
                Err(e) => {
                    &&& final(self).at < old(self).agenda@.len()
                    &&& old(self).agenda@[final(self).at as int].action matches Action::Refuse {
                        scan,
                    }
                    &&& e@ == run::refusal_text(old(self).catalog.scans@[scan as int])
                },
            },
    {
        let ghost goal = self.ledger().settled(self.agenda@, self.catalog, self.samples);
        #[verifier::loop_isolation(false)]
        while self.at < self.agenda.len()
            invariant
                self.wf(),
                self.same_plan(*old(self)),
                self.ledger().settled(self.agenda@, self.catalog, self.samples) == goal,
            decreases self.agenda@.len() - self.at,
        {
            let step: Step = self.agenda[self.at];
            assert(known(step, self.catalog));
            let pass: bool = !self.holds(step.guard) || step.action == Action::Nothing;
            if pass {
                self.file(step.slot, None);
                self.at = self.at + 1;
            } else {
                if let Action::Refuse { scan } = step.action {
                    return Err(Failure::new(refusal(&self.catalog.scans[scan])));
                }
                return Ok(Some(step));
            }
        }
        Ok(None)
    }

    /// Files what came of the current step, and moves on.
    pub fn report(&mut self, outcome: Outcome<R>)
        requires
            old(self).wf(),
            old(self).at < old(self).agenda.len(),
        ensures
            final(self).wf(),
            final(self).same_plan(*old(self)),
            final(self).ledger() == old(self).ledger().done(
                old(self).agenda@[old(self).at as int],
                outcome,
                old(self).catalog,
                old(self).samples,
            ),
    {
        let step: Step = self.agenda[self.at];
        assert(known(step, self.catalog));
        match outcome {
            Outcome::Done => self.file(step.slot, None),
            Outcome::Found { found } => {
                self.file(step.slot, None);
                self.found = found;
            },
            Outcome::Measured { result } => self.file(step.slot, result),
        }
        self.at = self.at + 1;
    }
}

/// Whether every step has the property.
pub open spec fn each(steps: Seq<Step>, p: spec_fn(Step) -> bool) -> bool {
    forall|k: int| 0 <= k < steps.len() ==> p(#[trigger] steps[k])
}

pub(crate) proof fn lemma_each_add(a: Seq<Step>, b: Seq<Step>, p: spec_fn(Step) -> bool)
    requires
        each(a, p),
        each(b, p),
    ensures
        each(a + b, p),
{
    assert forall|k: int| 0 <= k < (a + b).len() implies p(#[trigger] (a + b)[k]) by {
        if k < a.len() {
            assert((a + b)[k] == a[k]);
        } else {
            assert((a + b)[k] == b[k - a.len()]);
        }
    }
}

/// A property that every part of the agenda has is one of the whole.
pub(crate) proof fn lemma_each_agenda(
    b: Benchmark,
    c: Catalog,
    columns: Seq<Column>,
    compaction: bool,
    p: spec_fn(Step) -> bool,
)
    requires
        each(run::opening_steps(b), p),
        p(run::always(Action::SteadyState)),
        each(run::closing_steps(b), p),
        each(run::record_steps(b, compaction), p),
        each(run::compaction_steps(b, compaction, Guard::Always), p),
        forall|i: int|
            0 <= i < c.scans@.len() ==> each(
                #[trigger] run::scan_steps(b, c.scans@, i, columns, compaction),
                p,
            ),
        each(run::delete_steps(b), p),
        each(run::batch_steps(b, c.batches@), p),
    ensures
        each(run::agenda(b, c, columns, compaction), p),
{
    let opening = run::opening_steps(b);
    let closing = run::closing_steps(b);
    let one = seq![run::always(Action::SteadyState)];
    lemma_each_add(opening, one, p);
    lemma_each_add(opening + one, closing, p);
    let records = run::record_steps(b, compaction);
    let compact = run::compaction_steps(b, compaction, Guard::Always);
    let n = c.scans@.len();
    let scans = run::all_scan_steps(b, c.scans@, n, columns, compaction);
    lemma_each_scans(b, c.scans@, n, columns, compaction, p);
    let deletes = run::delete_steps(b);
    let batches = run::batch_steps(b, c.batches@);
    lemma_each_add(opening, records, p);
    lemma_each_add(opening + records, scans, p);
    lemma_each_add(opening + records + scans, compact, p);
    lemma_each_add(opening + records + scans + compact, deletes, p);
    lemma_each_add(opening + records + scans + compact + deletes, compact, p);
    lemma_each_add(opening + records + scans + compact + deletes + compact, batches, p);
    lemma_each_add(opening + records + scans + compact + deletes + compact + batches, closing, p);
}

pub(crate) proof fn lemma_each_scans(
    b: Benchmark,
    scans: Seq<Scan>,
    n: nat,
    columns: Seq<Column>,
    compaction: bool,
    p: spec_fn(Step) -> bool,
)
    requires
        n <= scans.len(),
        forall|i: int|
            0 <= i < scans.len() ==> each(
                #[trigger] run::scan_steps(b, scans, i, columns, compaction),
                p,
            ),
    ensures
        each(run::all_scan_steps(b, scans, n, columns, compaction), p),
    decreases n,
{
    if n > 0 {
        lemma_each_scans(b, scans, (n - 1) as nat, columns, compaction, p);
        lemma_each_add(
            run::all_scan_steps(b, scans, (n - 1) as nat, columns, compaction),
            run::scan_steps(b, scans, n - 1, columns, compaction),
            p,
        );
    }
}

/// A property of every part of a scan's steps is one of all of them.
pub(crate) proof fn lemma_each_scan(
    b: Benchmark,
    scans: Seq<Scan>,
    i: int,
    columns: Seq<Column>,
    compaction: bool,
    p: spec_fn(Step) -> bool,
)
    requires
        0 <= i < scans.len(),
        each(run::scan_heading(scans, i), p),
        p(run::skipped(Slot::OpenScan { scan: i as usize })),
        each(run::compaction_steps(b, compaction, Guard::Built), p),
        each(run::scan_legs(b, scans[i], i, Guard::Always, ScanContext::WithoutIndex), p),
        each(run::scan_legs(b, scans[i], i, Guard::Built, ScanContext::WithIndex), p),
        p(
            run::once(
                Guard::Always,
                BenchmarkOperation::BuildIndex { scan: i as usize },
                Slot::IndexBuild,
            ),
        ),
        p(
            run::once(
                Guard::Built,
                BenchmarkOperation::RemoveIndex { scan: i as usize },
                Slot::IndexRemove,
            ),
        ),
        scans[i].vector_query is Some ==> {
            &&& p(run::always(Action::Refuse { scan: i as usize }))
            &&& forall|dim: usize|
                each(#[trigger] run::vector_steps(b, scans[i], i, compaction, dim), p)
        },
    ensures
        each(run::scan_steps(b, scans, i, columns, compaction), p),
{
    let scan = scans[i];
    let open = seq![run::skipped(Slot::OpenScan { scan: i as usize })];
    let body = run::scan_body(b, scan, i, columns, compaction);
    let heap = run::scan_legs(b, scan, i, Guard::Always, ScanContext::WithoutIndex);
    let build = seq![
        run::once(
            Guard::Always,
            BenchmarkOperation::BuildIndex { scan: i as usize },
            Slot::IndexBuild,
        ),
    ];
    let compact = run::compaction_steps(b, compaction, Guard::Built);
    let indexed = run::scan_legs(b, scan, i, Guard::Built, ScanContext::WithIndex);
    let remove = seq![
        run::once(
            Guard::Built,
            BenchmarkOperation::RemoveIndex { scan: i as usize },
            Slot::IndexRemove,
        ),
    ];
    lemma_each_add(heap, build, p);
    lemma_each_add(heap + build, compact, p);
    lemma_each_add(heap + build + compact, indexed, p);
    lemma_each_add(heap + build + compact + indexed, remove, p);
    assert(each(body, p));
    lemma_each_add(run::scan_heading(scans, i), open, p);
    lemma_each_add(run::scan_heading(scans, i) + open, body, p);
}

/// Every step of the agenda refers to scans, batches and write lists that exist.
pub proof fn lemma_agenda_known(
    b: Benchmark,
    c: Catalog,
    columns: Seq<Column>,
    compaction: bool,
)
    ensures
        each(run::agenda(b, c, columns, compaction), |s: Step| known(s, c)),
{
    let p = |s: Step| known(s, c);
    assert(c.scans.len() == c.scans@.len());
    assert(c.batches.len() == c.batches@.len());
    assert forall|i: int| 0 <= i < c.scans@.len() implies each(
        #[trigger] run::scan_steps(b, c.scans@, i, columns, compaction),
        p,
    ) by {
        let scan = c.scans@[i];
        assert(scan.with_writes.len() == scan.with_writes@.len());
        lemma_each_scan(b, c.scans@, i, columns, compaction, p);
    }
    lemma_each_agenda(b, c, columns, compaction, p);
}

/// Whether an operation changes records.
pub open spec fn writes(operation: BenchmarkOperation) -> bool {
    match operation {
        BenchmarkOperation::Create => true,
        BenchmarkOperation::Update => true,
        BenchmarkOperation::Delete => true,
        BenchmarkOperation::ScanWithWrites { .. } => true,
        BenchmarkOperation::BatchCreate { .. } => true,
        BenchmarkOperation::BatchUpdate { .. } => true,
        BenchmarkOperation::BatchDelete { .. } => true,
        _ => false,
    }
}

pub open spec fn deletes(operation: BenchmarkOperation) -> bool {
    operation is Delete || operation is BatchDelete
}

/// A run that skips writes performs no operation that changes records.
pub proof fn lemma_skip_writes(
    b: Benchmark,
    c: Catalog,
    columns: Seq<Column>,
    compaction: bool,
)
    requires
        b.skip_writes,
    ensures
        each(
            run::agenda(b, c, columns, compaction),
            |s: Step| s.action matches Action::Operate { operation, .. } ==> !writes(operation),
        ),
{
    let p = |s: Step| s.action matches Action::Operate { operation, .. } ==> !writes(operation);
    assert forall|i: int| 0 <= i < c.scans@.len() implies each(
        #[trigger] run::scan_steps(b, c.scans@, i, columns, compaction),
        p,
    ) by {
        lemma_each_scan(b, c.scans@, i, columns, compaction, p);
    }
    lemma_each_agenda(b, c, columns, compaction, p);
}

/// A run that skips deletes performs no delete, alone or in a batch.
pub proof fn lemma_skip_deletes(
    b: Benchmark,
    c: Catalog,
    columns: Seq<Column>,
    compaction: bool,
)
    requires
        b.skip_deletes,
    ensures
        each(
            run::agenda(b, c, columns, compaction),
            |s: Step| s.action matches Action::Operate { operation, .. } ==> !deletes(operation),
        ),
{
    let p = |s: Step| s.action matches Action::Operate { operation, .. } ==> !deletes(operation);
    assert forall|i: int| 0 <= i < c.scans@.len() implies each(
        #[trigger] run::scan_steps(b, c.scans@, i, columns, compaction),
        p,
    ) by {
        lemma_each_scan(b, c.scans@, i, columns, compaction, p);
    }
    lemma_each_agenda(b, c, columns, compaction, p);
}

/// Whether an operation builds or drops an index.
pub open spec fn shapes_index(operation: BenchmarkOperation) -> bool {
    operation is BuildIndex || operation is BuildVectorIndex || operation is RemoveIndex
}

/// An index is built and dropped once, by one client; every other operation uses all clients.
pub proof fn lemma_index_by_one_client(
    b: Benchmark,
    c: Catalog,
    columns: Seq<Column>,
    compaction: bool,
)
    ensures
        each(
            run::agenda(b, c, columns, compaction),
            |s: Step|
                s.action matches Action::Operate { operation, lone, samples } ==> {
                    &&& lone == shapes_index(operation)
                    &&& lone ==> samples == 1
                },
        ),
{
    let p = |s: Step|
        s.action matches Action::Operate { operation, lone, samples } ==> {
            &&& lone == shapes_index(operation)
            &&& lone ==> samples == 1
        };
    assert forall|i: int| 0 <= i < c.scans@.len() implies each(
        #[trigger] run::scan_steps(b, c.scans@, i, columns, compaction),
        p,
    ) by {
        lemma_each_scan(b, c.scans@, i, columns, compaction, p);
    }
    lemma_each_agenda(b, c, columns, compaction, p);
}

/// The legs that the steps file, in order: what each timed and whether an index was there.
pub open spec fn legs(steps: Seq<Step>) -> Seq<(ScanWorkload, bool)>
    decreases steps.len(),
{
    if steps.len() == 0 {
        Seq::empty()
    } else {
        match steps.last().slot {
            Slot::Leg { workload, indexed } => legs(steps.drop_last()).push((workload, indexed)),
            _ => legs(steps.drop_last()),
        }
    }
}

proof fn lemma_legs_add(a: Seq<Step>, b: Seq<Step>)
    ensures
        legs(a + b) == legs(a) + legs(b),
    decreases b.len(),
{
    if b.len() == 0 {
        assert(a + b =~= a);
        assert(legs(a) + legs(b) =~= legs(a));
    } else {
        lemma_legs_add(a, b.drop_last());
        assert((a + b).drop_last() =~= a + b.drop_last());
        assert((a + b).last() == b.last());
        match b.last().slot {
            Slot::Leg { workload, indexed } => {
                assert(legs(a).add(legs(b.drop_last())).push((workload, indexed)) =~= legs(a)
                    + legs(b.drop_last()).push((workload, indexed)));
            },
            _ => {},
        }
    }
}

/// Steps without a leg file none.
proof fn lemma_no_legs(steps: Seq<Step>)
    requires
        each(steps, |s: Step| !(s.slot is Leg)),
    ensures
        legs(steps) == Seq::<(ScanWorkload, bool)>::empty(),
    decreases steps.len(),
{
    if steps.len() > 0 {
        let p = |s: Step| !(s.slot is Leg);
        assert(p(steps[steps.len() - 1]));
        assert(each(steps.drop_last(), p)) by {
            assert forall|k: int| 0 <= k < steps.drop_last().len() implies p(
                #[trigger] steps.drop_last()[k],
            ) by {
                assert(p(steps[k]));
            }
        }
        lemma_no_legs(steps.drop_last());
    }
}

/// The legs of a scan in one context: a plain one, then one per entry of its write list.
pub open spec fn context_legs(scan: Scan, indexed: bool) -> Seq<(ScanWorkload, bool)> {
    seq![(ScanWorkload::Read, indexed)] + Seq::new(
        scan.with_writes@.len(),
        |j: int|
            (
                ScanWorkload::ReadWrite {
                    write_ratio_percent: scan.with_writes@[j].write_ratio_percent,
                },
                indexed,
            ),
    )
}

/// The rows that a scan reports, whatever came back from the datastore.
pub open spec fn expected_legs(scan: Scan) -> Seq<(ScanWorkload, bool)> {
    match scan.vector_query {
        Some(query) => seq![(ScanWorkload::Read, run::needs_index(query.index_strategy))],
        None => if run::wants_index(scan) {
            context_legs(scan, false) + context_legs(scan, true)
        } else {
            context_legs(scan, false)
        },
    }
}

proof fn lemma_context_legs(
    b: Benchmark,
    scan: Scan,
    i: int,
    guard: Guard,
    context: ScanContext,
)
    ensures
        legs(run::scan_legs(b, scan, i, guard, context)) == context_legs(
            scan,
            context == ScanContext::WithIndex,
        ),
{
    let all = run::scan_legs(b, scan, i, guard, context);
    let want = context_legs(scan, context == ScanContext::WithIndex);
    lemma_legs_prefix(b, scan, i, guard, context, all.len());
    assert(all.take(all.len() as int) =~= all);
    assert(want.take(all.len() as int) =~= want);
}

proof fn lemma_legs_prefix(
    b: Benchmark,
    scan: Scan,
    i: int,
    guard: Guard,
    context: ScanContext,
    n: nat,
)
    requires
        n <= 1 + scan.with_writes@.len(),
    ensures
        legs(run::scan_legs(b, scan, i, guard, context).take(n as int)) == context_legs(
            scan,
            context == ScanContext::WithIndex,
        ).take(n as int),
    decreases n,
{
    let all = run::scan_legs(b, scan, i, guard, context);
    let want = context_legs(scan, context == ScanContext::WithIndex);
    if n == 0 {
        assert(want.take(0) =~= Seq::empty());
    } else {
        lemma_legs_prefix(b, scan, i, guard, context, (n - 1) as nat);
        assert(all.take(n as int).drop_last() =~= all.take(n - 1));
        assert(all.take(n as int).last() == all[n - 1]);
        assert(want.take(n as int) =~= want.take(n - 1).push(want[n - 1]));
    }
}

/// The steps of a scan that can run file the rows that the scan reports.
proof fn lemma_scan_legs(
    b: Benchmark,
    scans: Seq<Scan>,
    i: int,
    columns: Seq<Column>,
    compaction: bool,
)
    requires
        0 <= i < scans.len(),
        runnable(scans[i], columns),
    ensures
        legs(run::scan_body(b, scans[i], i, columns, compaction)) == expected_legs(scans[i]),
{
    let scan = scans[i];
    let compact = run::compaction_steps(b, compaction, Guard::Built);
    lemma_no_legs(compact);
    match scan.vector_query {
        Some(query) => {
            let dim = run::vector_length(columns, query.field@, columns.len())->0;
            let all = run::vector_steps(b, scan, i, compaction, dim);
            let head = all.take(2);
            let mid = all.subrange(2, all.len() - 2);
            let leg = all.subrange(all.len() - 2, all.len() - 1);
            let tail = all.subrange(all.len() - 1, all.len() as int);
            assert(mid =~= compact);
            lemma_no_legs(head);
            lemma_no_legs(tail);
            assert(leg.drop_last() =~= Seq::empty());
            assert(legs(leg.drop_last()) =~= Seq::empty());
            assert(legs(leg) =~= expected_legs(scan));
            lemma_legs_add(head, mid);
            lemma_legs_add(head + mid, leg);
            lemma_legs_add(head + mid + leg, tail);
            assert(all =~= head + mid + leg + tail);
            assert(legs(all) =~= expected_legs(scan));
        },
        None => {
            lemma_context_legs(b, scan, i, Guard::Always, ScanContext::WithoutIndex);
            lemma_context_legs(b, scan, i, Guard::Built, ScanContext::WithIndex);
            let heap = run::scan_legs(b, scan, i, Guard::Always, ScanContext::WithoutIndex);
            let build = seq![
                run::once(
                    Guard::Always,
                    BenchmarkOperation::BuildIndex { scan: i as usize },
                    Slot::IndexBuild,
                ),
            ];
            let indexed = run::scan_legs(b, scan, i, Guard::Built, ScanContext::WithIndex);
            let remove = seq![
                run::once(
                    Guard::Built,
                    BenchmarkOperation::RemoveIndex { scan: i as usize },
                    Slot::IndexRemove,
                ),
            ];
            lemma_no_legs(build);
            lemma_no_legs(remove);
            lemma_legs_add(heap, build);
            lemma_legs_add(heap + build, compact);
            lemma_legs_add(heap + build + compact, indexed);
            lemma_legs_add(heap + build + compact + indexed, remove);
            if run::wants_index(scan) {
                assert(legs(run::scan_body(b, scan, i, columns, compaction)) =~= expected_legs(
                    scan,
                ));
            }
        },
    }
}

/// Whether a scan can run: the field of a vector search is a vector column.
pub open spec fn runnable(scan: Scan, columns: Seq<Column>) -> bool {
    scan.vector_query matches Some(query) ==> run::vector_length(
        columns,
        query.field@,
        columns.len(),
    ) is Some
}

pub open spec fn shape<R>(runs: Seq<ScanRun<R>>) -> Seq<(ScanWorkload, bool)> {
    Seq::new(runs.len(), |k: int| (runs[k].workload, runs[k].indexed))
}

impl<R> Ledger<R> {
    /// The ledger after the given steps, each passed or done with the outcome that is given for its
    /// position in the run.
    pub open spec fn played(
        self,
        steps: Seq<Step>,
        outcomes: Seq<Outcome<R>>,
        c: Catalog,
        samples: u32,
    ) -> Self
        decreases steps.len(),
    {
        if steps.len() == 0 {
            self
        } else {
            let before = self.played(steps.drop_last(), outcomes, c, samples);
            if before.passes(steps.last()) {
                before.passed(steps.last(), c, samples)
            } else {
                before.done(steps.last(), outcomes[before.at], c, samples)
            }
        }
    }
}

/// Whether `after` is `before` with the given legs added to its last scan.
pub open spec fn gained<R>(
    before: Seq<ScanRows<R>>,
    after: Seq<ScanRows<R>>,
    added: Seq<(ScanWorkload, bool)>,
) -> bool {
    &&& after.len() == before.len()
    &&& after.drop_last() == before.drop_last()
    &&& shape(after.last().runs) == shape(before.last().runs) + added
    &&& after.last().id == before.last().id
    &&& after.last().name == before.last().name
    &&& after.last().iterations == before.last().iterations
}

pub open spec fn leg_of(slot: Slot) -> Seq<(ScanWorkload, bool)> {
    match slot {
        Slot::Leg { workload, indexed } => seq![(workload, indexed)],
        _ => Seq::empty(),
    }
}

proof fn lemma_filed_leg<R>(l: Ledger<R>, slot: Slot, result: Option<R>, c: Catalog, samples: u32)
    requires
        l.scans.len() > 0,
        !(slot is OpenScan),
    ensures
        gained(l.scans, l.filed(slot, result, c, samples).scans, leg_of(slot)),
{
    let after = l.filed(slot, result, c, samples);
    assert(after.scans.drop_last() =~= l.scans.drop_last());
    assert(shape(after.scans.last().runs) =~= shape(l.scans.last().runs) + leg_of(slot));
}

/// Steps that open no scan add their legs to the current one, whatever their outcomes.
proof fn lemma_played_legs<R>(
    l: Ledger<R>,
    steps: Seq<Step>,
    outcomes: Seq<Outcome<R>>,
    c: Catalog,
    samples: u32,
)
    requires
        l.scans.len() > 0,
        each(steps, |s: Step| !(s.slot is OpenScan)),
    ensures
        gained(l.scans, l.played(steps, outcomes, c, samples).scans, legs(steps)),
    decreases steps.len(),
{
    if steps.len() == 0 {
        assert(shape(l.scans.last().runs) + legs(steps) =~= shape(l.scans.last().runs));
    } else {
        let p = |s: Step| !(s.slot is OpenScan);
        assert forall|k: int| 0 <= k < steps.drop_last().len() implies p(
            #[trigger] steps.drop_last()[k],
        ) by {
            assert(p(steps[k]));
        }
        assert(p(steps[steps.len() - 1]));
        lemma_played_legs(l, steps.drop_last(), outcomes, c, samples);
        let before = l.played(steps.drop_last(), outcomes, c, samples);
        let after = l.played(steps, outcomes, c, samples);
        let slot = steps.last().slot;
        let result = match outcomes[before.at] {
            Outcome::Measured { result } => result,
            _ => None,
        };
        lemma_filed_leg(before, slot, None, c, samples);
        lemma_filed_leg(before, slot, result, c, samples);
        assert(after.scans == before.filed(slot, None, c, samples).scans || after.scans
            == before.filed(slot, result, c, samples).scans);
        assert(legs(steps) =~= legs(steps.drop_last()) + leg_of(slot));
        assert(shape(l.scans.last().runs) + legs(steps.drop_last()) + leg_of(slot) =~= shape(
            l.scans.last().runs,
        ) + legs(steps));
    }
}

/// Whatever the datastore answers, a scan that can run reports its legs in a fixed order: those
/// without an index, then those with it, each a plain read before one leg per write entry; a leg
/// that did not run has a row without a result.
pub proof fn lemma_scan_rows_aligned<R>(
    b: Benchmark,
    c: Catalog,
    i: int,
    columns: Seq<Column>,
    compaction: bool,
    l: Ledger<R>,
    outcomes: Seq<Outcome<R>>,
)
    requires
        0 <= i < c.scans@.len(),
        runnable(c.scans@[i], columns),
    ensures
        ({
            let opened = l.filed(Slot::OpenScan { scan: i as usize }, None, c, b.samples);
            let after = opened.played(
                run::scan_body(b, c.scans@[i], i, columns, compaction),
                outcomes,
                c,
                b.samples,
            );
            &&& after.scans.len() == l.scans.len() + 1
            &&& after.scans.drop_last() == l.scans
            &&& after.scans.last().id == c.scans@[i].id@
            &&& after.scans.last().name == c.scans@[i].name@
            &&& after.scans.last().iterations == run::iterations_of(
                b.samples,
                c.scans@[i].iterations,
            )
            &&& shape(after.scans.last().runs) == expected_legs(c.scans@[i])
        }),
{
    assert(c.scans.len() == c.scans@.len());
    let opened = l.filed(Slot::OpenScan { scan: i as usize }, None, c, b.samples);
    let body = run::scan_body(b, c.scans@[i], i, columns, compaction);
    let p = |s: Step| !(s.slot is OpenScan);
    lemma_body_opens_nothing(b, c.scans@[i], i, columns, compaction);
    lemma_scan_legs(b, c.scans@, i, columns, compaction);
    lemma_played_legs(opened, body, outcomes, c, b.samples);
    assert(opened.scans.drop_last() =~= l.scans);
    assert(shape(opened.scans.last().runs) =~= Seq::empty());
    let after = opened.played(body, outcomes, c, b.samples);
    assert(shape(after.scans.last().runs) =~= expected_legs(c.scans@[i]));
}

proof fn lemma_body_opens_nothing(
    b: Benchmark,
    scan: Scan,
    i: int,
    columns: Seq<Column>,
    compaction: bool,
)
    ensures
        each(run::scan_body(b, scan, i, columns, compaction), |s: Step| !(s.slot is OpenScan)),
{
    let p = |s: Step| !(s.slot is OpenScan);
    let compact = run::compaction_steps(b, compaction, Guard::Built);
    let heap = run::scan_legs(b, scan, i, Guard::Always, ScanContext::WithoutIndex);
    let build = seq![
        run::once(
            Guard::Always,
            BenchmarkOperation::BuildIndex { scan: i as usize },
            Slot::IndexBuild,
        ),
    ];
    let indexed = run::scan_legs(b, scan, i, Guard::Built, ScanContext::WithIndex);
    let remove = seq![
        run::once(
            Guard::Built,
            BenchmarkOperation::RemoveIndex { scan: i as usize },
            Slot::IndexRemove,
        ),
    ];
    lemma_each_add(heap, build, p);
    lemma_each_add(heap + build, compact, p);
    lemma_each_add(heap + build + compact, indexed, p);
    lemma_each_add(heap + build + compact + indexed, remove, p);
}

/// The context of an operation that reads through a scan.
pub open spec fn indexed_scan(operation: BenchmarkOperation) -> bool {
    match operation {
        BenchmarkOperation::Scan { context, .. } => context == ScanContext::WithIndex,
        BenchmarkOperation::ScanWithWrites { context, .. } => context == ScanContext::WithIndex,
        BenchmarkOperation::VectorScan { context, .. } => context == ScanContext::WithIndex,
        _ => false,
    }
}

/// The index of a scan is there for its indexed legs alone: the build comes after every leg
/// without an index and before every leg with it, the drop comes last, and the indexed legs and
/// the drop happen only where the build gave a result.
pub proof fn lemma_index_lifecycle(b: Benchmark, scan: Scan, i: int, compaction: bool)
    ensures
        ({
            let steps = run::indexed_steps(b, scan, i, compaction);
            let at = 1 + scan.with_writes@.len();
            &&& at < steps.len() - 1
            &&& steps[at as int] == run::once(
                Guard::Always,
                BenchmarkOperation::BuildIndex { scan: i as usize },
                Slot::IndexBuild,
            )
            &&& steps.last() == run::once(
                Guard::Built,
                BenchmarkOperation::RemoveIndex { scan: i as usize },
                Slot::IndexRemove,
            )
            &&& forall|k: int|
                0 <= k < steps.len() ==> ((
                #[trigger] steps[k]).action matches Action::Operate { operation, .. } ==> {
                    &&& k < at ==> !indexed_scan(operation) && !shapes_index(operation)
                    &&& at < k < steps.len() - 1 ==> indexed_scan(operation) && steps[k].guard
                        == Guard::Built
                })
        }),
{
    let steps = run::indexed_steps(b, scan, i, compaction);
    let heap = run::scan_legs(b, scan, i, Guard::Always, ScanContext::WithoutIndex);
    let compact = run::compaction_steps(b, compaction, Guard::Built);
    let indexed = run::scan_legs(b, scan, i, Guard::Built, ScanContext::WithIndex);
    let at = heap.len();
    assert forall|k: int| 0 <= k < steps.len() implies ((
    #[trigger] steps[k]).action matches Action::Operate { operation, .. } ==> {
        &&& k < at ==> !indexed_scan(operation) && !shapes_index(operation)
        &&& at < k < steps.len() - 1 ==> indexed_scan(operation) && steps[k].guard == Guard::Built
    }) by {
        if k < at {
            assert(steps[k] == heap[k]);
        } else if at < k < at + 1 + compact.len() {
            assert(steps[k] == compact[k - at - 1]);
        } else if at + 1 + compact.len() <= k < steps.len() - 1 {
            assert(steps[k] == indexed[k - at - 1 - compact.len()]);
        }
    }
}

/// The position moves by one per step.
proof fn lemma_played_at<R>(
    l: Ledger<R>,
    steps: Seq<Step>,
    outcomes: Seq<Outcome<R>>,
    c: Catalog,
    samples: u32,
)
    ensures
        l.played(steps, outcomes, c, samples).at == l.at + steps.len(),
    decreases steps.len(),
{
    if steps.len() > 0 {
        lemma_played_at(l, steps.drop_last(), outcomes, c, samples);
    }
}

proof fn lemma_played_same_outcomes<R>(
    l: Ledger<R>,
    steps: Seq<Step>,
    o1: Seq<Outcome<R>>,
    o2: Seq<Outcome<R>>,
    c: Catalog,
    samples: u32,
)
    requires
        forall|k: int| l.at <= k < l.at + steps.len() ==> #[trigger] o1[k] == o2[k],
    ensures
        l.played(steps, o1, c, samples) == l.played(steps, o2, c, samples),
    decreases steps.len(),
{
    if steps.len() > 0 {
        lemma_played_same_outcomes(l, steps.drop_last(), o1, o2, c, samples);
        lemma_played_at(l, steps.drop_last(), o1, c, samples);
        let before = l.played(steps.drop_last(), o1, c, samples);
        assert(o1[before.at] == o2[before.at]);
    }
}

/// Looking for the next step to do plays the steps that are passed: a ledger that plays the first
/// steps of the agenda still does.
pub proof fn lemma_next_keeps_history<R>(
    l: Ledger<R>,
    agenda: Seq<Step>,
    outcomes: Seq<Outcome<R>>,
    c: Catalog,
    samples: u32,
)
    requires
        0 <= l.at <= agenda.len(),
        l == Ledger::<R>::empty().played(agenda.take(l.at), outcomes, c, samples),
    ensures
        ({
            let after = l.settled(agenda, c, samples);
            &&& l.at <= after.at <= agenda.len()
            &&& after == Ledger::<R>::empty().played(
                agenda.take(after.at),
                outcomes,
                c,
                samples,
            )
        }),
    decreases agenda.len() - l.at,
{
    if l.at < agenda.len() && l.passes(agenda[l.at]) {
        let next = l.passed(agenda[l.at], c, samples);
        assert(agenda.take(l.at + 1).drop_last() =~= agenda.take(l.at));
        assert(agenda.take(l.at + 1).last() == agenda[l.at]);
        lemma_next_keeps_history(next, agenda, outcomes, c, samples);
    }
}

/// Reporting the outcome of a step that had to be done plays that step with that outcome:
/// `extended` holds the outcomes so far and, at the position of the step, the reported one.
pub proof fn lemma_report_keeps_history<R>(
    l: Ledger<R>,
    agenda: Seq<Step>,
    outcomes: Seq<Outcome<R>>,
    extended: Seq<Outcome<R>>,
    c: Catalog,
    samples: u32,
)
    requires
        0 <= l.at < agenda.len(),
        l == Ledger::<R>::empty().played(agenda.take(l.at), outcomes, c, samples),
        !l.passes(agenda[l.at]),
        forall|k: int| 0 <= k < l.at ==> #[trigger] outcomes[k] == extended[k],
    ensures
        ({
            let after = l.done(agenda[l.at], extended[l.at], c, samples);
            &&& after.at == l.at + 1
            &&& after == Ledger::<R>::empty().played(
                agenda.take(after.at),
                extended,
                c,
                samples,
            )
        }),
{
    let empty = Ledger::<R>::empty();
    assert(agenda.take(l.at + 1).drop_last() =~= agenda.take(l.at));
    assert(agenda.take(l.at + 1).last() == agenda[l.at]);
    lemma_played_same_outcomes(empty, agenda.take(l.at), outcomes, extended, c, samples);
}

} // verus!
