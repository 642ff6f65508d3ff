//! The operations that a benchmark dispatches, and the labels they are reported under.
use crate::binary64::Float32;
use crate::decimal;
use crate::text;
use crate::text::{cat2, cat4, cat5, decimal_text};
use vstd::prelude::*;
use vstd::utf8::*;

verus! {

/// Whether a scan may use an index.
#[derive(Clone, Copy, Debug, PartialEq, Eq, Structural)]
pub enum ScanContext {
    WithoutIndex,
    WithIndex,
}

/// An index over some fields.
#[derive(Clone, Debug)]
pub struct Index {
    pub skip: bool,
    pub fields: Vec<String>,
    pub unique: Option<bool>,
    pub index_type: Option<String>,
}

/// Writes mixed into a scan.
#[derive(Clone, Debug)]
pub struct ScanWithWrites {
    /// The share of writes, in percent.
    pub write_ratio_percent: u32,
}

/// How a vector index is built.
#[derive(Clone, Copy, Debug, PartialEq, Eq, Structural)]
pub enum VectorIndexStrategy {
    Bruteforce,
    Hnsw,
    DiskAnn,
}

/// Which inserted records the query vectors of a scan come from.
#[derive(Clone, Copy, Debug, PartialEq, Eq, Structural)]
pub struct VectorHoldout {
    pub count: usize,
    pub seed: u64,
}

/// A vector search.
#[derive(Clone, Debug)]
pub struct VectorQuerySpec {
    pub field: String,
    pub index_strategy: VectorIndexStrategy,
    pub holdout: VectorHoldout,
}

/// A scan, as the configuration describes it.
#[derive(Clone, Debug)]
pub struct Scan {
    pub id: String,
    pub spec_group: u32,
    pub multi_run_spec: bool,
    pub name: String,
    pub iterations: Option<usize>,
    pub condition: Option<String>,
    pub order_by: Option<String>,
    pub start: Option<usize>,
    pub limit: Option<usize>,
    pub expect: Option<usize>,
    pub projection: Option<String>,
    pub with_index: Option<Index>,
    pub with_writes: Vec<ScanWithWrites>,
    pub vector_query: Option<VectorQuerySpec>,
}

/// The kind of a batch.
#[derive(Clone, Copy, Debug, PartialEq, Eq, Structural)]
pub enum BatchOperationType {
    Create,
    Read,
    Update,
    Delete,
}

/// A batch, as the configuration describes it.
#[derive(Clone, Debug)]
pub struct BatchOperation {
    pub name: String,
    pub batch_size: usize,
    pub iterations: Option<usize>,
    pub operation: BatchOperationType,
}

/// The query vectors of a vector-search scan.
#[derive(Clone, Debug)]
pub struct VectorQuerySet {
    pub queries: Vec<Vec<Float32>>,
}

impl VectorQuerySet {
    /// The query of a sample: the samples go round the query set.
    pub fn pick(&self, sample: u32) -> (r: &[Float32])
        requires
            self.queries@.len() > 0,
        ensures
            r@ == self.queries@[sample as int % self.queries@.len() as int]@,
    {
        self.queries[(sample as usize) % self.queries.len()].as_slice()
    }
}

/// One logical workload.
#[derive(Clone, Copy, Debug, PartialEq, Eq, Structural)]
pub enum BenchmarkOperation {
    /// Insert new keys up to the sample count.
    Create,
    /// Read by key.
    Read,
    /// Update existing keys.
    Update,
    /// Table or indexed query for the scan at the given position.
    Scan { scan: usize, context: ScanContext },
    /// Nearest-neighbour query with the query set of the scan.
    VectorScan { scan: usize, context: ScanContext },
    /// The scan mixed with the writes at the given position of its write list.
    ScanWithWrites { scan: usize, context: ScanContext, writes: usize },
    /// Build the index of the scan.
    BuildIndex { scan: usize },
    /// Build the vector index of the scan, for vectors of the given length.
    BuildVectorIndex { scan: usize, dim: usize },
    /// Drop the index of the scan.
    RemoveIndex { scan: usize },
    /// Delete by key.
    Delete,
    /// The batch at the given position.
    BatchCreate { batch: usize },
    BatchRead { batch: usize },
    BatchUpdate { batch: usize },
    BatchDelete { batch: usize },
}

/// The scans and batches that operations refer to by position.
#[derive(Clone, Debug)]
pub struct Catalog {
    pub scans: Vec<Scan>,
    pub batches: Vec<BatchOperation>,
}

pub open spec fn slug_text(context: ScanContext) -> Seq<char> {
    match context {
        ScanContext::WithoutIndex => "no-index"@,
        ScanContext::WithIndex => "indexed"@,
    }
}

/// Short name of a scan context: heap scan or index-backed scan.
pub fn scan_context_slug(ctx: ScanContext) -> (r: &'static str)
    ensures
        r@ == slug_text(ctx),
{
    match ctx {
        ScanContext::WithoutIndex => "no-index",
        ScanContext::WithIndex => "indexed",
    }
}

/// The longest label, in bytes, that the progress bar shows in full.
pub const MAX_PROGRESS_LABEL: usize = 72;

impl BenchmarkOperation {
    /// Whether the positions that the operation holds exist.
    pub open spec fn known_to(self, c: Catalog) -> bool {
        match self {
            BenchmarkOperation::Scan { scan, .. } => scan < c.scans@.len(),
            BenchmarkOperation::VectorScan { scan, .. } => scan < c.scans@.len(),
            BenchmarkOperation::ScanWithWrites { scan, writes, .. } => scan < c.scans@.len()
                && writes < c.scans@[scan as int].with_writes@.len(),
            BenchmarkOperation::BuildIndex { scan } => scan < c.scans@.len(),
            BenchmarkOperation::BuildVectorIndex { scan, .. } => scan < c.scans@.len(),
            BenchmarkOperation::RemoveIndex { scan } => scan < c.scans@.len(),
            BenchmarkOperation::BatchCreate { batch } => batch < c.batches@.len(),
            BenchmarkOperation::BatchRead { batch } => batch < c.batches@.len(),
            BenchmarkOperation::BatchUpdate { batch } => batch < c.batches@.len(),
            BenchmarkOperation::BatchDelete { batch } => batch < c.batches@.len(),
            _ => true,
        }
    }

    /// The share of writes in a mixed scan, in percent.
    pub open spec fn ratio(self, c: Catalog) -> nat {
        match self {
            BenchmarkOperation::ScanWithWrites { scan, writes, .. } => {
                c.scans@[scan as int].with_writes@[writes as int].write_ratio_percent as nat
            },
            _ => 0,
        }
    }

    /// The phase name for logs and progress bars.
    pub open spec fn label_text(self, c: Catalog) -> Seq<char> {
        match self {
            BenchmarkOperation::Create => "Create"@,
            BenchmarkOperation::Read => "Read"@,
            BenchmarkOperation::Update => "Update"@,
            BenchmarkOperation::Delete => "Delete"@,
            BenchmarkOperation::Scan { context, .. } => "Scan :: "@ + slug_text(context),
            BenchmarkOperation::VectorScan { context, .. } => "VectorScan :: "@ + slug_text(
                context,
            ),
            BenchmarkOperation::ScanWithWrites { context, .. } => "Scan :: "@ + slug_text(context)
                + ", combined workload (ratio "@ + text::decimal(self.ratio(c)) + "%)"@,
            BenchmarkOperation::BuildIndex { .. } => "BuildIndex"@,
            BenchmarkOperation::BuildVectorIndex { .. } => "BuildVectorIndex"@,
            BenchmarkOperation::RemoveIndex { .. } => "RemoveIndex"@,
            BenchmarkOperation::BatchCreate { batch } => "BatchCreate::"@
                + c.batches@[batch as int].name@,
            BenchmarkOperation::BatchRead { batch } => "BatchRead::"@
                + c.batches@[batch as int].name@,
            BenchmarkOperation::BatchUpdate { batch } => "BatchUpdate::"@
                + c.batches@[batch as int].name@,
            BenchmarkOperation::BatchDelete { batch } => "BatchDelete::"@
                + c.batches@[batch as int].name@,
        }
    }

    /// The label of the marker lines: it tells the phases of scans and indexes apart by the id and
    /// the run name of the scan.
    pub open spec fn marker_text(self, c: Catalog) -> Seq<char> {
        match self {
            BenchmarkOperation::Scan { scan, context } => "Scan :: "@ + c.scans@[scan as int].id@
                + " :: "@ + c.scans@[scan as int].name@ + " :: "@ + slug_text(context),
            BenchmarkOperation::ScanWithWrites { scan, context, .. } => "Scan :: "@
                + c.scans@[scan as int].id@ + " :: "@ + c.scans@[scan as int].name@ + " :: "@
                + slug_text(context) + ", writes "@ + text::decimal(self.ratio(c)) + "%"@,
            BenchmarkOperation::BuildIndex { scan } => "BuildIndex :: "@
                + c.scans@[scan as int].id@ + " :: "@ + c.scans@[scan as int].name@,
            BenchmarkOperation::RemoveIndex { scan } => "RemoveIndex :: "@
                + c.scans@[scan as int].id@ + " :: "@ + c.scans@[scan as int].name@,
            BenchmarkOperation::VectorScan { scan, context } => "VectorScan :: "@
                + c.scans@[scan as int].id@ + " :: "@ + c.scans@[scan as int].name@ + " :: "@
                + slug_text(context),
            BenchmarkOperation::BuildVectorIndex { scan, .. } => "BuildVectorIndex :: "@
                + c.scans@[scan as int].id@ + " :: "@ + c.scans@[scan as int].name@,
            _ => self.label_text(c),
        }
    }

    /// The position of the scan that the operation works on, if it works on one.
    pub open spec fn scan_position(self) -> Option<usize> {
        match self {
            BenchmarkOperation::Scan { scan, .. } => Some(scan),
            BenchmarkOperation::VectorScan { scan, .. } => Some(scan),
            BenchmarkOperation::ScanWithWrites { scan, .. } => Some(scan),
            BenchmarkOperation::BuildIndex { scan } => Some(scan),
            BenchmarkOperation::BuildVectorIndex { scan, .. } => Some(scan),
            BenchmarkOperation::RemoveIndex { scan } => Some(scan),
            _ => None,
        }
    }

    /// Whether two operations do the same to a scan: the same kind of work, in the same context and
    /// with the same share of writes.
    pub open spec fn same_work(self, other: Self, c: Catalog) -> bool {
        match (self, other) {
            (
                BenchmarkOperation::Scan { context, .. },
                BenchmarkOperation::Scan { context: o, .. },
            ) => context == o,
            (
                BenchmarkOperation::VectorScan { context, .. },
                BenchmarkOperation::VectorScan { context: o, .. },
            ) => context == o,
            (
                BenchmarkOperation::ScanWithWrites { context, .. },
                BenchmarkOperation::ScanWithWrites { context: o, .. },
            ) => context == o && self.ratio(c) == other.ratio(c),
            (BenchmarkOperation::BuildIndex { .. }, BenchmarkOperation::BuildIndex { .. }) => true,
            (
                BenchmarkOperation::BuildVectorIndex { .. },
                BenchmarkOperation::BuildVectorIndex { .. },
            ) => true,
            (BenchmarkOperation::RemoveIndex { .. }, BenchmarkOperation::RemoveIndex { .. }) => {
                true
            },
            _ => false,
        }
    }

    /// Whether two operations are the same phase of a run: the same work on scans of one id and one
    /// name, the same work on batches of one name, or the same work on single records.
    pub open spec fn same_phase(self, other: Self, c: Catalog) -> bool {
        match (self, other) {
            (BenchmarkOperation::Create, BenchmarkOperation::Create) => true,
            (BenchmarkOperation::Read, BenchmarkOperation::Read) => true,
            (BenchmarkOperation::Update, BenchmarkOperation::Update) => true,
            (BenchmarkOperation::Delete, BenchmarkOperation::Delete) => true,
            (
                BenchmarkOperation::BatchCreate { batch },
                BenchmarkOperation::BatchCreate { batch: o },
            ) => c.batches@[batch as int].name@ == c.batches@[o as int].name@,
            (
                BenchmarkOperation::BatchRead { batch },
                BenchmarkOperation::BatchRead { batch: o },
            ) => c.batches@[batch as int].name@ == c.batches@[o as int].name@,
            (
                BenchmarkOperation::BatchUpdate { batch },
                BenchmarkOperation::BatchUpdate { batch: o },
            ) => c.batches@[batch as int].name@ == c.batches@[o as int].name@,
            (
                BenchmarkOperation::BatchDelete { batch },
                BenchmarkOperation::BatchDelete { batch: o },
            ) => c.batches@[batch as int].name@ == c.batches@[o as int].name@,
            _ => self.same_work(other, c) && {
                let s = c.scans@[self.scan_position()->0 as int];
                let t = c.scans@[other.scan_position()->0 as int];
                s.id@ == t.id@ && s.name@ == t.name@
            },
        }
    }

    /// What the marker label of a scan operation begins with.
    spec fn marker_head(self) -> Seq<char> {
        match self {
            BenchmarkOperation::VectorScan { .. } => "VectorScan :: "@,
            BenchmarkOperation::BuildIndex { .. } => "BuildIndex :: "@,
            BenchmarkOperation::BuildVectorIndex { .. } => "BuildVectorIndex :: "@,
            BenchmarkOperation::RemoveIndex { .. } => "RemoveIndex :: "@,
            _ => "Scan :: "@,
        }
    }

    /// What the marker label of a scan operation ends with.
    spec fn marker_tail(self, c: Catalog) -> Seq<char> {
        match self {
            BenchmarkOperation::Scan { context, .. } => " :: "@ + slug_text(context),
            BenchmarkOperation::VectorScan { context, .. } => " :: "@ + slug_text(context),
            BenchmarkOperation::ScanWithWrites { context, .. } => " :: "@ + slug_text(context)
                + ", writes "@ + text::decimal(self.ratio(c)) + "%"@,
            _ => Seq::empty(),
        }
    }

    /// The label of the progress bar before it is cut to size.
    pub open spec fn progress_text(self, c: Catalog) -> Seq<char> {
        match self {
            BenchmarkOperation::Scan { context, .. } => slug_text(context),
            BenchmarkOperation::VectorScan { context, .. } => "vector knn :: "@ + slug_text(
                context,
            ),
            BenchmarkOperation::ScanWithWrites { context, .. } => slug_text(context)
                + ", writes "@ + text::decimal(self.ratio(c)) + "%"@,
            _ => self.label_text(c),
        }
    }

    /// The phase name for logs and progress bars.
    pub fn label(&self, catalog: &Catalog) -> (r: String)
        requires
            self.known_to(*catalog),
        ensures
            r@ == self.label_text(*catalog),
    {
        match *self {
            BenchmarkOperation::Create => "Create".to_owned(),
            BenchmarkOperation::Read => "Read".to_owned(),
            BenchmarkOperation::Update => "Update".to_owned(),
            BenchmarkOperation::Delete => "Delete".to_owned(),
            BenchmarkOperation::Scan { context, .. } => cat2(
                "Scan :: ",
                scan_context_slug(context),
            ),
            BenchmarkOperation::VectorScan { context, .. } => cat2(
                "VectorScan :: ",
                scan_context_slug(context),
            ),
            BenchmarkOperation::ScanWithWrites { context, scan, writes } => {
                let ratio: u32 = catalog.scans[scan].with_writes[writes].write_ratio_percent;
                cat5(
                    "Scan :: ",
                    scan_context_slug(context),
                    ", combined workload (ratio ",
                    decimal_text(ratio as u128).as_str(),
                    "%)",
                )
            },
            BenchmarkOperation::BuildIndex { .. } => "BuildIndex".to_owned(),
            BenchmarkOperation::BuildVectorIndex { .. } => "BuildVectorIndex".to_owned(),
            BenchmarkOperation::RemoveIndex { .. } => "RemoveIndex".to_owned(),
            BenchmarkOperation::BatchCreate { batch } => cat2(
                "BatchCreate::",
                catalog.batches[batch].name.as_str(),
            ),
            BenchmarkOperation::BatchRead { batch } => cat2(
                "BatchRead::",
                catalog.batches[batch].name.as_str(),
            ),
            BenchmarkOperation::BatchUpdate { batch } => cat2(
                "BatchUpdate::",
                catalog.batches[batch].name.as_str(),
            ),
            BenchmarkOperation::BatchDelete { batch } => cat2(
                "BatchDelete::",
                catalog.batches[batch].name.as_str(),
            ),
        }
    }
}

/// The label of the marker lines of an operation.
pub fn phase_marker_label(op: &BenchmarkOperation, catalog: &Catalog) -> (r: String)
    requires
        op.known_to(*catalog),
    ensures
        r@ == op.marker_text(*catalog),
{
    match *op {
        BenchmarkOperation::Scan { scan, context } => {
            let s: &Scan = &catalog.scans[scan];
            let head: String = cat5("Scan :: ", s.id.as_str(), " :: ", s.name.as_str(), " :: ");
            head.concat(scan_context_slug(context))
        },
        BenchmarkOperation::ScanWithWrites { scan, context, writes } => {
            let s: &Scan = &catalog.scans[scan];
            let ratio: u32 = s.with_writes[writes].write_ratio_percent;
            let head: String = cat5("Scan :: ", s.id.as_str(), " :: ", s.name.as_str(), " :: ");
            cat5(
                head.as_str(),
                scan_context_slug(context),
                ", writes ",
                decimal_text(ratio as u128).as_str(),
                "%",
            )
        },
        BenchmarkOperation::BuildIndex { scan } => {
            let s: &Scan = &catalog.scans[scan];
            cat4("BuildIndex :: ", s.id.as_str(), " :: ", s.name.as_str())
        },
        BenchmarkOperation::RemoveIndex { scan } => {
            let s: &Scan = &catalog.scans[scan];
            cat4("RemoveIndex :: ", s.id.as_str(), " :: ", s.name.as_str())
        },
        BenchmarkOperation::VectorScan { scan, context } => {
            let s: &Scan = &catalog.scans[scan];
            let head: String = cat5(
                "VectorScan :: ",
                s.id.as_str(),
                " :: ",
                s.name.as_str(),
                " :: ",
            );
            head.concat(scan_context_slug(context))
        },
        BenchmarkOperation::BuildVectorIndex { scan, .. } => {
            let s: &Scan = &catalog.scans[scan];
            cat4("BuildVectorIndex :: ", s.id.as_str(), " :: ", s.name.as_str())
        },
        _ => op.label(catalog),
    }
}

/// Whether no label that goes on with one id can go on with the other: neither id, with the separator
/// behind it, begins the other with the separator behind it.
pub open spec fn ids_apart(a: Seq<char>, b: Seq<char>) -> bool {
    &&& !(a + " :: "@).is_prefix_of(b + " :: "@)
    &&& !(b + " :: "@).is_prefix_of(a + " :: "@)
}

/// Two ids that differ are apart where neither holds a space before a colon.
pub proof fn lemma_ids_apart(a: Seq<char>, b: Seq<char>)
    requires
        a != b,
        forall|i: int| 0 <= i < a.len() - 1 ==> !(#[trigger] a[i] == ' ' && a[i + 1] == ':'),
        forall|i: int| 0 <= i < b.len() - 1 ==> !(#[trigger] b[i] == ' ' && b[i + 1] == ':'),
    ensures
        ids_apart(a, b),
{
    lemma_id_begins_no_other(a, b);
    lemma_id_begins_no_other(b, a);
}

proof fn lemma_id_begins_no_other(a: Seq<char>, b: Seq<char>)
    requires
        a != b,
        forall|i: int| 0 <= i < b.len() - 1 ==> !(#[trigger] b[i] == ' ' && b[i + 1] == ':'),
    ensures
        !(a + " :: "@).is_prefix_of(b + " :: "@),
{
    reveal_strlit(" :: ");
    let x = a + " :: "@;
    let y = b + " :: "@;
    if x.is_prefix_of(y) {
        let n = a.len() as int;
        assert(x =~= y.take(x.len() as int));
        if a.len() == b.len() {
            assert forall|i: int| 0 <= i < n implies a[i] == b[i] by {
                assert(x[i] == a[i] && y[i] == b[i]);
            }
            assert(a =~= b);
        } else {
            assert(x[n] == ' ' && x[n + 1] == ':' && x[n + 2] == ':');
            assert(y[n] == ' ' && y[n + 1] == ':' && y[n + 2] == ':');
            if n + 1 < b.len() {
                assert(b[n] == ' ' && b[n + 1] == ':');
            } else {
                assert(n + 1 == b.len());
                assert(y[n + 1] == ' ');
            }
        }
    }
}

proof fn lemma_marker_parts(op: BenchmarkOperation, c: Catalog)
    requires
        op.scan_position() is Some,
    ensures
        ({
            let s = c.scans@[op.scan_position()->0 as int];
            op.marker_text(c) == op.marker_head() + (s.id@ + " :: "@) + (s.name@ + op.marker_tail(
                c,
            ))
        }),
{
    let s = c.scans@[op.scan_position()->0 as int];
    let parts = op.marker_head() + (s.id@ + " :: "@) + (s.name@ + op.marker_tail(c));
    assert(op.marker_text(c) =~= parts);
}

/// The characters by which the label of an operation tells its kind: the first three and the sixth.
spec fn kind_mark(op: BenchmarkOperation) -> (char, char, char, char) {
    match op {
        BenchmarkOperation::Create => ('C', 'r', 'e', 'e'),
        BenchmarkOperation::Read => ('R', 'e', 'a', ' '),
        BenchmarkOperation::Update => ('U', 'p', 'd', 'e'),
        BenchmarkOperation::Delete => ('D', 'e', 'l', 'e'),
        BenchmarkOperation::Scan { .. } => ('S', 'c', 'a', ':'),
        BenchmarkOperation::ScanWithWrites { .. } => ('S', 'c', 'a', ':'),
        BenchmarkOperation::VectorScan { .. } => ('V', 'e', 'c', 'r'),
        BenchmarkOperation::BuildIndex { .. } => ('B', 'u', 'i', 'I'),
        BenchmarkOperation::BuildVectorIndex { .. } => ('B', 'u', 'i', 'V'),
        BenchmarkOperation::RemoveIndex { .. } => ('R', 'e', 'm', 'e'),
        BenchmarkOperation::BatchCreate { .. } => ('B', 'a', 't', 'C'),
        BenchmarkOperation::BatchRead { .. } => ('B', 'a', 't', 'R'),
        BenchmarkOperation::BatchUpdate { .. } => ('B', 'a', 't', 'U'),
        BenchmarkOperation::BatchDelete { .. } => ('B', 'a', 't', 'D'),
    }
}

/// What a label begins with.
spec fn label_head(op: BenchmarkOperation) -> Seq<char> {
    match op {
        BenchmarkOperation::Create => "Create"@,
        BenchmarkOperation::Read => "Read"@,
        BenchmarkOperation::Update => "Update"@,
        BenchmarkOperation::Delete => "Delete"@,
        BenchmarkOperation::BatchCreate { .. } => "BatchCreate::"@,
        BenchmarkOperation::BatchRead { .. } => "BatchRead::"@,
        BenchmarkOperation::BatchUpdate { .. } => "BatchUpdate::"@,
        BenchmarkOperation::BatchDelete { .. } => "BatchDelete::"@,
        _ => op.marker_head(),
    }
}

proof fn lemma_head_marks(op: BenchmarkOperation)
    ensures
        label_head(op).len() >= 4,
        label_head(op)[0] == kind_mark(op).0,
        label_head(op)[1] == kind_mark(op).1,
        label_head(op)[2] == kind_mark(op).2,
        op is Read || label_head(op).len() >= 6,
        op is Read || label_head(op)[5] == kind_mark(op).3,
{
    reveal_strlit("Create");
    reveal_strlit("Read");
    reveal_strlit("Update");
    reveal_strlit("Delete");
    reveal_strlit("Scan :: ");
    reveal_strlit("VectorScan :: ");
    reveal_strlit("BuildIndex :: ");
    reveal_strlit("BuildVectorIndex :: ");
    reveal_strlit("RemoveIndex :: ");
    reveal_strlit("BatchCreate::");
    reveal_strlit("BatchRead::");
    reveal_strlit("BatchUpdate::");
    reveal_strlit("BatchDelete::");
}

/// A label shows what it begins with.
proof fn lemma_label_begins(op: BenchmarkOperation, c: Catalog)
    ensures
        label_head(op).is_prefix_of(op.marker_text(c)),
{
    let all = op.marker_text(c);
    let n = label_head(op).len() as int;
    if op.scan_position() is Some {
        lemma_marker_parts(op, c);
        assert(all.take(n) =~= label_head(op));
    } else {
        assert(all.take(n) =~= label_head(op));
    }
}

/// One label has one beginning.
proof fn lemma_same_head(a: BenchmarkOperation, b: BenchmarkOperation, c: Catalog)
    requires
        a.marker_text(c) == b.marker_text(c),
    ensures
        kind_mark(a) == kind_mark(b),
{
    let all = a.marker_text(c);
    lemma_head_marks(a);
    lemma_head_marks(b);
    lemma_label_begins(a, c);
    lemma_label_begins(b, c);
    let x = label_head(a);
    let y = label_head(b);
    assert(all[0] == x[0] && all[1] == x[1] && all[2] == x[2]);
    assert(all[0] == y[0] && all[1] == y[1] && all[2] == y[2]);
    if !(a is Read) && !(b is Read) {
        assert(all[5] == x[5] && all[5] == y[5]);
    }
}

proof fn lemma_slugs(a: ScanContext, b: ScanContext)
    ensures
        slug_text(a).len() >= 7,
        slug_text(a).last() != '%',
        slug_text(a).last() == slug_text(b).last() ==> a == b,
{
    reveal_strlit("indexed");
    reveal_strlit("no-index");
}

proof fn lemma_same_front<A>(u: Seq<A>, v: Seq<A>, tail: Seq<A>)
    requires
        u + tail == v + tail,
    ensures
        u == v,
{
    assert((u + tail).take(u.len() as int) =~= u);
    assert((v + tail).take(v.len() as int) =~= v);
    assert((u + tail).len() == (v + tail).len());
}

/// The share of writes and the context stand at the end of a label.
proof fn lemma_writes_tails(
    u: Seq<char>,
    v: Seq<char>,
    x: ScanContext,
    y: ScanContext,
    n: nat,
    m: nat,
)
    requires
        u + (" :: "@ + slug_text(x) + ", writes "@ + text::decimal(n) + "%"@) == v + (" :: "@
            + slug_text(y) + ", writes "@ + text::decimal(m) + "%"@),
    ensures
        x == y,
        n == m,
        u == v,
{
    reveal_strlit(" :: ");
    reveal_strlit(", writes ");
    reveal_strlit("%");
    let d = text::decimal(n);
    let e = text::decimal(m);
    let s = slug_text(x);
    let t = slug_text(y);
    let all = u + (" :: "@ + s + ", writes "@ + d + "%"@);
    let same = v + (" :: "@ + t + ", writes "@ + e + "%"@);
    let end = all.len() - 1;
    decimal::lemma_number_of_decimal(n);
    decimal::lemma_number_of_decimal(m);
    assert forall|i: int| 0 <= i < d.len() implies all[end - d.len() + i] == #[trigger] d[i] by {}
    assert forall|i: int| 0 <= i < e.len() implies same[end - e.len() + i] == #[trigger] e[i] by {}
    assert(all[end - d.len() - 1] == ' ');
    assert(same[end - e.len() - 1] == ' ');
    if d.len() < e.len() {
        let i = e.len() - d.len() - 1;
        assert(same[end - e.len() + i] == e[i]);
        assert(decimal::is_digit(e[i]));
    }
    if e.len() < d.len() {
        let i = d.len() - e.len() - 1;
        assert(all[end - d.len() + i] == d[i]);
        assert(decimal::is_digit(d[i]));
    }
    assert(d =~= e) by {
        assert forall|i: int| 0 <= i < d.len() implies d[i] == e[i] by {
            assert(all[end - d.len() + i] == d[i]);
            assert(same[end - e.len() + i] == e[i]);
        }
    }
    lemma_slugs(x, y);
    lemma_slugs(y, x);
    assert(all[end - d.len() - 10] == s.last());
    assert(same[end - e.len() - 10] == t.last());
    lemma_same_front(u, v, " :: "@ + s + ", writes "@ + d + "%"@);
}

/// What follows the id of a scan in a label tells the name and the work.
proof fn lemma_same_rest(
    a: BenchmarkOperation,
    b: BenchmarkOperation,
    c: Catalog,
    u: Seq<char>,
    v: Seq<char>,
)
    requires
        a.scan_position() is Some,
        b.scan_position() is Some,
        kind_mark(a) == kind_mark(b),
        u + a.marker_tail(c) == v + b.marker_tail(c),
    ensures
        a.same_work(b, c),
        u == v,
{
    let all = u + a.marker_tail(c);
    let same = v + b.marker_tail(c);
    match (a, b) {
        (
            BenchmarkOperation::ScanWithWrites { context: x, .. },
            BenchmarkOperation::ScanWithWrites { context: y, .. },
        ) => {
            lemma_writes_tails(u, v, x, y, a.ratio(c), b.ratio(c));
        },
        (
            BenchmarkOperation::Scan { context: x, .. },
            BenchmarkOperation::ScanWithWrites { context: y, .. },
        ) => {
            reveal_strlit("%");
            lemma_slugs(x, y);
            assert(all.last() == slug_text(x).last());
            assert(same.last() == '%');
        },
        (
            BenchmarkOperation::ScanWithWrites { context: x, .. },
            BenchmarkOperation::Scan { context: y, .. },
        ) => {
            reveal_strlit("%");
            lemma_slugs(y, x);
            assert(all.last() == '%');
            assert(same.last() == slug_text(y).last());
        },
        (
            BenchmarkOperation::Scan { context: x, .. },
            BenchmarkOperation::Scan { context: y, .. },
        ) => {
            lemma_slugs(x, y);
            assert(all.last() == slug_text(x).last());
            lemma_slugs(y, x);
            assert(same.last() == slug_text(y).last());
            lemma_same_front(u, v, a.marker_tail(c));
        },
        (
            BenchmarkOperation::VectorScan { context: x, .. },
            BenchmarkOperation::VectorScan { context: y, .. },
        ) => {
            lemma_slugs(x, y);
            assert(all.last() == slug_text(x).last());
            lemma_slugs(y, x);
            assert(same.last() == slug_text(y).last());
            lemma_same_front(u, v, a.marker_tail(c));
        },
        _ => {
            assert(a.marker_tail(c) =~= Seq::empty());
            assert(b.marker_tail(c) =~= Seq::empty());
            lemma_same_front(u, v, a.marker_tail(c));
        },
    }
}

/// Each marker line is unique within a run: two operations have one label only where they are the
/// same phase. Of scans with different ids this holds where no separator can be read out of an id.
pub proof fn lemma_markers_unique(a: BenchmarkOperation, b: BenchmarkOperation, c: Catalog)
    requires
        a.known_to(c),
        b.known_to(c),
        a.marker_text(c) == b.marker_text(c),
        a.scan_position() matches Some(i) ==> b.scan_position() matches Some(j) ==> {
            let s = c.scans@[i as int];
            let t = c.scans@[j as int];
            s.id@ == t.id@ || ids_apart(s.id@, t.id@)
        },
    ensures
        a.same_phase(b, c),
{
    lemma_same_head(a, b, c);
    if a.scan_position() is Some {
        assert(b.scan_position() is Some);
        lemma_marker_parts(a, c);
        lemma_marker_parts(b, c);
        let s = c.scans@[a.scan_position()->0 as int];
        let t = c.scans@[b.scan_position()->0 as int];
        let head = a.marker_head();
        assert(head == b.marker_head());
        let x = s.id@ + " :: "@;
        let y = t.id@ + " :: "@;
        let u = s.name@ + a.marker_tail(c);
        let v = t.name@ + b.marker_tail(c);
        if ids_apart(s.id@, t.id@) {
            lemma_same_start(head, x, u, y, v);
        } else {
            assert((head + x + u).skip((head + x).len() as int) =~= u);
            assert((head + y + v).skip((head + y).len() as int) =~= v);
            lemma_same_rest(a, b, c, s.name@, t.name@);
        }
    } else {
        assert(b.scan_position() is None);
        let all = a.marker_text(c);
        let n = label_head(a).len() as int;
        match (a, b) {
            (
                BenchmarkOperation::BatchCreate { batch: i },
                BenchmarkOperation::BatchCreate { batch: j },
            ) => {
                assert(all.skip(n) =~= c.batches@[i as int].name@);
                assert(all.skip(n) =~= c.batches@[j as int].name@);
            },
            (
                BenchmarkOperation::BatchRead { batch: i },
                BenchmarkOperation::BatchRead { batch: j },
            ) => {
                assert(all.skip(n) =~= c.batches@[i as int].name@);
                assert(all.skip(n) =~= c.batches@[j as int].name@);
            },
            (
                BenchmarkOperation::BatchUpdate { batch: i },
                BenchmarkOperation::BatchUpdate { batch: j },
            ) => {
                assert(all.skip(n) =~= c.batches@[i as int].name@);
                assert(all.skip(n) =~= c.batches@[j as int].name@);
            },
            (
                BenchmarkOperation::BatchDelete { batch: i },
                BenchmarkOperation::BatchDelete { batch: j },
            ) => {
                assert(all.skip(n) =~= c.batches@[i as int].name@);
                assert(all.skip(n) =~= c.batches@[j as int].name@);
            },
            _ => {},
        }
    }
}

/// Of two texts that begin what follows the same head, one begins the other.
proof fn lemma_same_start<A>(head: Seq<A>, x: Seq<A>, u: Seq<A>, y: Seq<A>, v: Seq<A>)
    requires
        head + x + u == head + y + v,
    ensures
        x.is_prefix_of(y) || y.is_prefix_of(x),
{
    let all = head + x + u;
    assert forall|i: int| 0 <= i < x.len() && i < y.len() implies x[i] == y[i] by {
        assert(all[head.len() + i] == x[i]);
        assert((head + y + v)[head.len() + i] == y[i]);
    }
    if x.len() <= y.len() {
        assert(x =~= y.take(x.len() as int));
    } else {
        assert(y =~= x.take(y.len() as int));
    }
}

proof fn lemma_encode_add(a: Seq<char>, b: Seq<char>)
    ensures
        encode_utf8(a + b) == encode_utf8(a) + encode_utf8(b),
    decreases a.len(),
{
    if a.len() == 0 {
        assert(a + b =~= b);
        assert(encode_utf8(a) + encode_utf8(b) =~= encode_utf8(b));
    } else {
        lemma_encode_add(a.drop_first(), b);
        assert((a + b).drop_first() =~= a.drop_first() + b);
        assert(encode_utf8(a + b) =~= encode_utf8(a) + encode_utf8(b));
    }
}

/// The label as UTF-8, cut to the size of the progress bar.
pub open spec fn shortened(label: Seq<u8>) -> Seq<u8> {
    if label.len() > MAX_PROGRESS_LABEL {
        label.take(MAX_PROGRESS_LABEL - 1) + encode_utf8("\u{2026}"@)
    } else {
        label
    }
}

/// The label of an operation for the progress bar, at full length.
pub fn progress_label(operation: &BenchmarkOperation, catalog: &Catalog) -> (r: String)
    requires
        operation.known_to(*catalog),
    ensures
        r@ == operation.progress_text(*catalog),
{
    match *operation {
        BenchmarkOperation::Scan { context, .. } => scan_context_slug(context).to_owned(),
        BenchmarkOperation::VectorScan { context, .. } => cat2(
            "vector knn :: ",
            scan_context_slug(context),
        ),
        BenchmarkOperation::ScanWithWrites { scan, context, writes } => {
            let ratio: u32 = catalog.scans[scan].with_writes[writes].write_ratio_percent;
            cat4(
                scan_context_slug(context),
                ", writes ",
                decimal_text(ratio as u128).as_str(),
                "%",
            )
        },
        _ => operation.label(catalog),
    }
}

/// The label of an operation for the progress bar.
///
/// A label that has to be cut must have a character boundary there.
pub fn progress_short_label(operation: &BenchmarkOperation, catalog: &Catalog) -> (r: String)
    requires
        operation.known_to(*catalog),
        encode_utf8(operation.progress_text(*catalog)).len() <= usize::MAX,
        encode_utf8(operation.progress_text(*catalog)).len() > MAX_PROGRESS_LABEL
            ==> is_char_boundary(
            encode_utf8(operation.progress_text(*catalog)),
            MAX_PROGRESS_LABEL - 1,
        ),
    ensures
        encode_utf8(r@) == shortened(encode_utf8(operation.progress_text(*catalog))),
{
    let s: String = progress_label(operation, catalog);
    if s.as_str().len() > MAX_PROGRESS_LABEL {
        let (head, _tail): (&str, &str) = s.as_str().split_at(MAX_PROGRESS_LABEL - 1);
        proof {
            lemma_encode_add(head@, "\u{2026}"@);
            assert(encode_utf8(s@).subrange(0, MAX_PROGRESS_LABEL - 1) =~= encode_utf8(s@).take(
                MAX_PROGRESS_LABEL - 1,
            ));
        }
        cat2(head, "\u{2026}")
    } else {
        s
    }
}

} // verus!
