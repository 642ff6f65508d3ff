//! Steady-state workloads, their operations and their deterministic operation mixes.
use crate::binary64;
use crate::decimal;
use crate::failure::Failure;
use crate::text;
use crate::text::{cat2, cat3, decimal_text, join_with, same_text};
use vstd::arithmetic::div_mod::*;
use vstd::prelude::*;

verus! {

/// One client operation of a steady-state workload.
#[derive(Clone, Copy, Debug, PartialEq, Eq, Structural)]
pub enum SteadyStateOperation {
    Create,
    Read,
    Update,
    Scan,
}

/// A steady-state row.
#[derive(Clone, Copy, Debug, PartialEq, Eq, Structural)]
pub enum SteadyStateWorkload {
    BalancedZipfian,
    ReadHeavyZipfian,
    UpdateHeavyZipfian,
    PointReadZipfian,
    PointReadUniform,
    PointReadMissingInRange,
    RangeScanUniform,
    SustainedIngest,
    Idle,
}

/// The rows that run where none are named.
pub open spec fn default_workloads_spec() -> Seq<SteadyStateWorkload> {
    seq![
        SteadyStateWorkload::BalancedZipfian,
        SteadyStateWorkload::ReadHeavyZipfian,
        SteadyStateWorkload::UpdateHeavyZipfian,
        SteadyStateWorkload::PointReadZipfian,
        SteadyStateWorkload::PointReadUniform,
        SteadyStateWorkload::PointReadMissingInRange,
        SteadyStateWorkload::RangeScanUniform,
        SteadyStateWorkload::SustainedIngest,
    ]
}

pub fn default_workloads() -> (r: Vec<SteadyStateWorkload>)
    ensures
        r@ == default_workloads_spec(),
{
    let r: Vec<SteadyStateWorkload> = vec![
        SteadyStateWorkload::BalancedZipfian,
        SteadyStateWorkload::ReadHeavyZipfian,
        SteadyStateWorkload::UpdateHeavyZipfian,
        SteadyStateWorkload::PointReadZipfian,
        SteadyStateWorkload::PointReadUniform,
        SteadyStateWorkload::PointReadMissingInRange,
        SteadyStateWorkload::RangeScanUniform,
        SteadyStateWorkload::SustainedIngest,
    ];
    assert(r@ =~= default_workloads_spec());
    r
}

/// The workload of the given name.
pub open spec fn workload_named(name: Seq<char>) -> Option<SteadyStateWorkload> {
    if name == "balanced_zipfian"@ {
        Some(SteadyStateWorkload::BalancedZipfian)
    } else if name == "read_heavy_zipfian"@ {
        Some(SteadyStateWorkload::ReadHeavyZipfian)
    } else if name == "update_heavy_zipfian"@ {
        Some(SteadyStateWorkload::UpdateHeavyZipfian)
    } else if name == "point_read_zipfian"@ {
        Some(SteadyStateWorkload::PointReadZipfian)
    } else if name == "point_read_uniform"@ {
        Some(SteadyStateWorkload::PointReadUniform)
    } else if name == "point_read_missing_in_range"@ {
        Some(SteadyStateWorkload::PointReadMissingInRange)
    } else if name == "range_scan_uniform"@ {
        Some(SteadyStateWorkload::RangeScanUniform)
    } else if name == "sustained_ingest"@ {
        Some(SteadyStateWorkload::SustainedIngest)
    } else if name == "idle"@ {
        Some(SteadyStateWorkload::Idle)
    } else {
        None
    }
}

pub open spec fn unsupported_workload(name: Seq<char>) -> Seq<char> {
    "unsupported steady-state workload `"@ + name + "`"@
}

pub open spec fn incompatible_mix(w: SteadyStateWorkload) -> Seq<char> {
    "custom steady-state operation mix is incompatible with "@ + w.name_text()
        + " key-selection contract"@
}

impl SteadyStateWorkload {
    pub open spec fn name_text(self) -> Seq<char> {
        match self {
            SteadyStateWorkload::BalancedZipfian => "balanced_zipfian"@,
            SteadyStateWorkload::ReadHeavyZipfian => "read_heavy_zipfian"@,
            SteadyStateWorkload::UpdateHeavyZipfian => "update_heavy_zipfian"@,
            SteadyStateWorkload::PointReadZipfian => "point_read_zipfian"@,
            SteadyStateWorkload::PointReadUniform => "point_read_uniform"@,
            SteadyStateWorkload::PointReadMissingInRange => "point_read_missing_in_range"@,
            SteadyStateWorkload::RangeScanUniform => "range_scan_uniform"@,
            SteadyStateWorkload::SustainedIngest => "sustained_ingest"@,
            SteadyStateWorkload::Idle => "idle"@,
        }
    }

    /// How a row picks its keys.
    pub open spec fn key_selection_text(self) -> Seq<char> {
        match self {
            SteadyStateWorkload::PointReadUniform => "uniform"@,
            SteadyStateWorkload::PointReadMissingInRange => "scrambled_zipfian_missing_range"@,
            SteadyStateWorkload::RangeScanUniform => "uniform_positional"@,
            SteadyStateWorkload::SustainedIngest => "unique_sequential"@,
            SteadyStateWorkload::Idle => "none"@,
            _ => "scrambled_zipfian"@,
        }
    }

    /// Whether a custom schedule may hold `op` under this row's key selection.
    pub open spec fn admits(self, op: SteadyStateOperation) -> bool {
        match self {
            SteadyStateWorkload::SustainedIngest => op == SteadyStateOperation::Create,
            SteadyStateWorkload::RangeScanUniform => op == SteadyStateOperation::Scan,
            SteadyStateWorkload::PointReadMissingInRange => op == SteadyStateOperation::Read,
            SteadyStateWorkload::Idle => false,
            _ => op == SteadyStateOperation::Read || op == SteadyStateOperation::Update,
        }
    }

    /// Whether a custom schedule fits this row; nothing fits the idle row.
    pub open spec fn compatible(self, schedule: Seq<SteadyStateOperation>) -> bool {
        self != SteadyStateWorkload::Idle && forall|i: int|
            0 <= i < schedule.len() ==> self.admits(#[trigger] schedule[i])
    }

    pub fn name(self) -> (r: &'static str)
        ensures
            r@ == self.name_text(),
    {
        match self {
            SteadyStateWorkload::BalancedZipfian => "balanced_zipfian",
            SteadyStateWorkload::ReadHeavyZipfian => "read_heavy_zipfian",
            SteadyStateWorkload::UpdateHeavyZipfian => "update_heavy_zipfian",
            SteadyStateWorkload::PointReadZipfian => "point_read_zipfian",
            SteadyStateWorkload::PointReadUniform => "point_read_uniform",
            SteadyStateWorkload::PointReadMissingInRange => "point_read_missing_in_range",
            SteadyStateWorkload::RangeScanUniform => "range_scan_uniform",
            SteadyStateWorkload::SustainedIngest => "sustained_ingest",
            SteadyStateWorkload::Idle => "idle",
        }
    }

    pub fn from_name(name: &str) -> (r: Result<Self, Failure>)
        ensures
            match (r, workload_named(name@)) {
                (Ok(w), Some(v)) => w == v,
                (Err(e), None) => e@ == unsupported_workload(name@),
                _ => false,
            },
    {
        if same_text(name, "balanced_zipfian") {
            Ok(SteadyStateWorkload::BalancedZipfian)
        } else if same_text(name, "read_heavy_zipfian") {
            Ok(SteadyStateWorkload::ReadHeavyZipfian)
        } else if same_text(name, "update_heavy_zipfian") {
            Ok(SteadyStateWorkload::UpdateHeavyZipfian)
        } else if same_text(name, "point_read_zipfian") {
            Ok(SteadyStateWorkload::PointReadZipfian)
        } else if same_text(name, "point_read_uniform") {
            Ok(SteadyStateWorkload::PointReadUniform)
        } else if same_text(name, "point_read_missing_in_range") {
            Ok(SteadyStateWorkload::PointReadMissingInRange)
        } else if same_text(name, "range_scan_uniform") {
            Ok(SteadyStateWorkload::RangeScanUniform)
        } else if same_text(name, "sustained_ingest") {
            Ok(SteadyStateWorkload::SustainedIngest)
        } else if same_text(name, "idle") {
            Ok(SteadyStateWorkload::Idle)
        } else {
            Err(Failure::new(cat3("unsupported steady-state workload `", name, "`")))
        }
    }

    /// Whether the row runs against a loaded dataset.
    pub fn requires_prepared_dataset(self) -> (r: bool)
        ensures
            r == (self != SteadyStateWorkload::SustainedIngest),
    {
        match self {
            SteadyStateWorkload::SustainedIngest => false,
            _ => true,
        }
    }

    pub fn key_selection(self) -> (r: &'static str)
        ensures
            r@ == self.key_selection_text(),
    {
        match self {
            SteadyStateWorkload::PointReadUniform => "uniform",
            SteadyStateWorkload::PointReadMissingInRange => "scrambled_zipfian_missing_range",
            SteadyStateWorkload::RangeScanUniform => "uniform_positional",
            SteadyStateWorkload::SustainedIngest => "unique_sequential",
            SteadyStateWorkload::Idle => "none",
            _ => "scrambled_zipfian",
        }
    }

    /// Whether every read of the row must miss.
    pub fn expects_missing_reads(self) -> (r: bool)
        ensures
            r == (self == SteadyStateWorkload::PointReadMissingInRange),
    {
        match self {
            SteadyStateWorkload::PointReadMissingInRange => true,
            _ => false,
        }
    }

    fn admits_operation(self, op: SteadyStateOperation) -> (r: bool)
        ensures
            r == self.admits(op),
    {
        match self {
            SteadyStateWorkload::SustainedIngest => op == SteadyStateOperation::Create,
            SteadyStateWorkload::RangeScanUniform => op == SteadyStateOperation::Scan,
            SteadyStateWorkload::PointReadMissingInRange => op == SteadyStateOperation::Read,
            SteadyStateWorkload::Idle => false,
            _ => op == SteadyStateOperation::Read || op == SteadyStateOperation::Update,
        }
    }

    /// Refuses a custom schedule that breaks the row's key-selection contract.
    pub fn validate_operation_schedule(self, schedule: &[SteadyStateOperation]) -> (r: Result<
        (),
        Failure,
    >)
        ensures
            match r {
                Ok(()) => self.compatible(schedule@),
                Err(e) => !self.compatible(schedule@) && e@ == incompatible_mix(self),
            },
    {
        let mut valid: bool = self != SteadyStateWorkload::Idle;
        let mut i: usize = 0;
        while i < schedule.len()
            invariant
                i <= schedule@.len(),
                valid == (self != SteadyStateWorkload::Idle && forall|j: int|
                    0 <= j < i ==> self.admits(#[trigger] schedule@[j])),
            decreases schedule@.len() - i,
        {
            if !self.admits_operation(schedule[i]) {
                assert(!self.admits(schedule@[i as int]));
                valid = false;
            }
            i = i + 1;
        }
        if !valid {
            return Err(
                Failure::new(
                    cat3(
                        "custom steady-state operation mix is incompatible with ",
                        self.name(),
                        " key-selection contract",
                    ),
                ),
            );
        }
        Ok(())
    }
}

/// Every row is known by its name, and by no other.
pub proof fn lemma_names_round_trip(w: SteadyStateWorkload, name: Seq<char>)
    ensures
        workload_named(w.name_text()) == Some(w),
        workload_named(name) matches Some(v) ==> v.name_text() == name,
{
    reveal_strlit("balanced_zipfian");
    reveal_strlit("read_heavy_zipfian");
    reveal_strlit("update_heavy_zipfian");
    reveal_strlit("point_read_zipfian");
    reveal_strlit("point_read_uniform");
    reveal_strlit("point_read_missing_in_range");
    reveal_strlit("range_scan_uniform");
    reveal_strlit("sustained_ingest");
    reveal_strlit("idle");
    assert("balanced_zipfian"@.len() != "read_heavy_zipfian"@.len());
    assert("balanced_zipfian"@.len() != "update_heavy_zipfian"@.len());
    assert("balanced_zipfian"@.len() != "point_read_zipfian"@.len());
    assert("balanced_zipfian"@.len() != "point_read_uniform"@.len());
    assert("balanced_zipfian"@.len() != "point_read_missing_in_range"@.len());
    assert("balanced_zipfian"@.len() != "range_scan_uniform"@.len());
    assert("balanced_zipfian"@[0] != "sustained_ingest"@[0]);
    assert("balanced_zipfian"@.len() != "idle"@.len());
    assert("read_heavy_zipfian"@.len() != "update_heavy_zipfian"@.len());
    assert("read_heavy_zipfian"@[0] != "point_read_zipfian"@[0]);
    assert("read_heavy_zipfian"@[0] != "point_read_uniform"@[0]);
    assert("read_heavy_zipfian"@.len() != "point_read_missing_in_range"@.len());
    assert("read_heavy_zipfian"@[1] != "range_scan_uniform"@[1]);
    assert("read_heavy_zipfian"@.len() != "sustained_ingest"@.len());
    assert("read_heavy_zipfian"@.len() != "idle"@.len());
    assert("update_heavy_zipfian"@.len() != "point_read_zipfian"@.len());
    assert("update_heavy_zipfian"@.len() != "point_read_uniform"@.len());
    assert("update_heavy_zipfian"@.len() != "point_read_missing_in_range"@.len());
    assert("update_heavy_zipfian"@.len() != "range_scan_uniform"@.len());
    assert("update_heavy_zipfian"@.len() != "sustained_ingest"@.len());
    assert("update_heavy_zipfian"@.len() != "idle"@.len());
    assert("point_read_zipfian"@[11] != "point_read_uniform"@[11]);
    assert("point_read_zipfian"@.len() != "point_read_missing_in_range"@.len());
    assert("point_read_zipfian"@[0] != "range_scan_uniform"@[0]);
    assert("point_read_zipfian"@.len() != "sustained_ingest"@.len());
    assert("point_read_zipfian"@.len() != "idle"@.len());
    assert("point_read_uniform"@.len() != "point_read_missing_in_range"@.len());
    assert("point_read_uniform"@[0] != "range_scan_uniform"@[0]);
    assert("point_read_uniform"@.len() != "sustained_ingest"@.len());
    assert("point_read_uniform"@.len() != "idle"@.len());
    assert("point_read_missing_in_range"@.len() != "range_scan_uniform"@.len());
    assert("point_read_missing_in_range"@.len() != "sustained_ingest"@.len());
    assert("point_read_missing_in_range"@.len() != "idle"@.len());
    assert("range_scan_uniform"@.len() != "sustained_ingest"@.len());
    assert("range_scan_uniform"@.len() != "idle"@.len());
    assert("sustained_ingest"@.len() != "idle"@.len());
}

/// How often each operation occurred.
#[derive(Clone, Copy, Debug, PartialEq, Eq, Structural)]
pub struct SteadyStateCounts {
    pub creates: u64,
    pub reads: u64,
    pub updates: u64,
    pub scans: u64,
}

/// The counted operations, as `name=count` pairs; an operation that never occurred has none.
pub open spec fn mix_pairs(creates: nat, reads: nat, updates: nat, scans: nat) -> Seq<Seq<char>> {
    let none = Seq::<Seq<char>>::empty();
    (if creates > 0 { seq!["create="@ + text::decimal(creates)] } else { none })
        + (if reads > 0 { seq!["read="@ + text::decimal(reads)] } else { none })
        + (if updates > 0 { seq!["update="@ + text::decimal(updates)] } else { none })
        + (if scans > 0 { seq!["scan="@ + text::decimal(scans)] } else { none })
}

pub open spec fn mix_text(creates: nat, reads: nat, updates: nat, scans: nat) -> Seq<char> {
    text::join(mix_pairs(creates, reads, updates, scans), ","@)
}

/// The last `width` decimal digits of a number, with leading zeros.
pub open spec fn padded(n: nat, width: nat) -> Seq<char>
    decreases width,
{
    if width == 0 {
        Seq::empty()
    } else {
        padded(n / 10, (width - 1) as nat).push(text::digit(n % 10))
    }
}

/// `n` parts of `total` as a number with six decimals, rounded to the nearest.
pub open spec fn share_text(n: nat, total: nat) -> Seq<char> {
    let millionths = binary64::nearest_even(n * 1_000_000, total);
    text::decimal(millionths / 1_000_000) + "."@ + padded(millionths % 1_000_000, 6)
}

/// The counted operations, as `name=share` pairs; an operation that never occurred has none.
pub open spec fn share_pairs(creates: nat, reads: nat, updates: nat, scans: nat) -> Seq<
    Seq<char>,
> {
    let none = Seq::<Seq<char>>::empty();
    let total = creates + reads + updates + scans;
    (if creates > 0 { seq!["create="@ + share_text(creates, total)] } else { none })
        + (if reads > 0 { seq!["read="@ + share_text(reads, total)] } else { none })
        + (if updates > 0 { seq!["update="@ + share_text(updates, total)] } else { none })
        + (if scans > 0 { seq!["scan="@ + share_text(scans, total)] } else { none })
}

pub open spec fn shares_text(creates: nat, reads: nat, updates: nat, scans: nat) -> Seq<char> {
    text::join(share_pairs(creates, reads, updates, scans), ","@)
}

/// A kind that is all there is has the share one.
pub proof fn lemma_whole_share(n: nat)
    requires
        n > 0,
    ensures
        share_text(n, n) == "1.000000"@,
{
    lemma_div_multiples_vanish(1_000_000, n as int);
    lemma_mod_multiples_basic(1_000_000, n as int);
    assert(n * 1_000_000 == 1_000_000 * n);
    assert(binary64::nearest_even(n * 1_000_000, n) == 1_000_000);
    reveal_strlit(".");
    reveal_strlit("1.000000");
    reveal_with_fuel(padded, 7);
    assert(padded(0, 6) =~= seq!['0', '0', '0', '0', '0', '0']);
    assert(share_text(n, n) =~= "1.000000"@);
}

/// The last `width` digits of a number as text.
fn padded_text(n: u128, width: u32) -> (r: String)
    ensures
        r@ == padded(n as nat, width as nat),
    decreases width,
{
    if width == 0 {
        return String::new();
    }
    let front: String = padded_text(n / 10, width - 1);
    let last: String = decimal_text(n % 10);
    let r: String = cat2(front.as_str(), last.as_str());
    assert(r@ =~= padded(n as nat, width as nat));
    r
}

fn share(n: u128, total: u128) -> (r: String)
    requires
        0 < n <= total,
        n <= 0xFFFF_FFFF_FFFF_FFFF_FFFF,
        total <= 0xFFFF_FFFF_FFFF_FFFF_FFFF,
    ensures
        r@ == share_text(n as nat, total as nat),
{
    let x: u128 = n * 1_000_000;
    let q: u128 = x / total;
    let rest: u128 = x % total;
    proof {
        lemma_div_is_ordered_by_denominator(x as int, 1, total as int);
        lemma_mod_bound(x as int, total as int);
    }
    let millionths: u128 = if 2 * rest < total || (2 * rest == total && q % 2 == 0) {
        q
    } else {
        q + 1
    };
    cat3(
        decimal_text(millionths / 1_000_000).as_str(),
        ".",
        padded_text(millionths % 1_000_000, 6).as_str(),
    )
}

/// The shares of the counted operations in words.
pub(crate) fn observed_shares(creates: u128, reads: u128, updates: u128, scans: u128) -> (r: String)
    requires
        creates <= 0x1_FFFF_FFFF_FFFF_FFFF,
        reads <= 0x1_FFFF_FFFF_FFFF_FFFF,
        updates <= 0x1_FFFF_FFFF_FFFF_FFFF,
        scans <= 0x1_FFFF_FFFF_FFFF_FFFF,
    ensures
        r@ == shares_text(creates as nat, reads as nat, updates as nat, scans as nat),
{
    broadcast use text::lemma_texts_push;

    let total: u128 = creates + reads + updates + scans;
    let mut parts: Vec<String> = Vec::new();
    assert(text::texts(parts@) =~= Seq::<Seq<char>>::empty());
    if creates > 0 {
        parts.push(cat2("create=", share(creates, total).as_str()));
    }
    if reads > 0 {
        parts.push(cat2("read=", share(reads, total).as_str()));
    }
    if updates > 0 {
        parts.push(cat2("update=", share(updates, total).as_str()));
    }
    if scans > 0 {
        parts.push(cat2("scan=", share(scans, total).as_str()));
    }
    assert(text::texts(parts@) =~= share_pairs(
        creates as nat,
        reads as nat,
        updates as nat,
        scans as nat,
    ));
    join_with(&parts, ",")
}

/// The pair of one operation, where it occurred.
spec fn pair(label: Seq<char>, n: nat) -> Seq<Seq<char>> {
    if n > 0 {
        seq![label + text::decimal(n)]
    } else {
        Seq::empty()
    }
}

/// Whether no piece begins with `c`.
spec fn none_begins(pieces: Seq<Seq<char>>, c: char) -> bool {
    forall|i: int|
        0 <= i < pieces.len() ==> (#[trigger] pieces[i]).len() > 0 && pieces[i][0] != c
}

proof fn lemma_pair_free(label: Seq<char>, n: nat)
    requires
        label.len() > 0,
        text::free_of(label, ','),
    ensures
        forall|i: int|
            0 <= i < pair(label, n).len() ==> text::free_of(#[trigger] pair(label, n)[i], ',')
                && pair(label, n)[i].len() > 0 && pair(label, n)[i][0] == label[0],
{
    let s = label + text::decimal(n);
    decimal::lemma_number_of_decimal(n);
    assert forall|i: int| 0 <= i < s.len() implies #[trigger] s[i] != ',' by {
        if i < label.len() {
            assert(s[i] == label[i]);
        } else {
            assert(s[i] == text::decimal(n)[i - label.len()]);
            assert(decimal::is_digit(text::decimal(n)[i - label.len()]));
        }
    }
}

/// Where two lists agree, so do their first pairs and what follows these.
proof fn lemma_same_pair(
    label: Seq<char>,
    n: nat,
    m: nat,
    left: Seq<Seq<char>>,
    right: Seq<Seq<char>>,
)
    requires
        label.len() > 0,
        pair(label, n) + left == pair(label, m) + right,
        none_begins(left, label[0]),
        none_begins(right, label[0]),
    ensures
        n == m,
        left == right,
{
    let a = pair(label, n) + left;
    let b = pair(label, m) + right;
    if n > 0 && m > 0 {
        assert(a[0] == label + text::decimal(n));
        assert(b[0] == label + text::decimal(m));
        assert((label + text::decimal(n)).skip(label.len() as int) =~= text::decimal(n));
        assert((label + text::decimal(m)).skip(label.len() as int) =~= text::decimal(m));
        decimal::lemma_number_of_decimal(n);
        decimal::lemma_number_of_decimal(m);
        assert(a.skip(1) =~= left);
        assert(b.skip(1) =~= right);
    } else if n > 0 {
        assert(a[0] == label + text::decimal(n));
        assert(b =~= right);
        assert(right[0][0] == label[0]);
    } else if m > 0 {
        assert(b[0] == label + text::decimal(m));
        assert(a =~= left);
        assert(left[0][0] == label[0]);
    } else {
        assert(a =~= left);
        assert(b =~= right);
    }
}

proof fn lemma_labels()
    ensures
        "create="@.len() > 0 && "create="@[0] == 'c' && text::free_of("create="@, ','),
        "read="@.len() > 0 && "read="@[0] == 'r' && text::free_of("read="@, ','),
        "update="@.len() > 0 && "update="@[0] == 'u' && text::free_of("update="@, ','),
        "scan="@.len() > 0 && "scan="@[0] == 's' && text::free_of("scan="@, ','),
        ","@ == seq![','],
{
    reveal_strlit("create=");
    reveal_strlit("read=");
    reveal_strlit("update=");
    reveal_strlit("scan=");
    reveal_strlit(",");
    assert(","@ =~= seq![',']);
}

/// The pairs one after the other, and that no later pair begins as an earlier one does.
proof fn lemma_pairs(creates: nat, reads: nat, updates: nat, scans: nat)
    ensures
        mix_pairs(creates, reads, updates, scans) == pair("create="@, creates) + (pair(
            "read="@,
            reads,
        ) + (pair("update="@, updates) + pair("scan="@, scans))),
        none_begins(pair("scan="@, scans), 'u'),
        none_begins(pair("update="@, updates) + pair("scan="@, scans), 'r'),
        none_begins(
            pair("read="@, reads) + (pair("update="@, updates) + pair("scan="@, scans)),
            'c',
        ),
        forall|i: int|
            0 <= i < mix_pairs(creates, reads, updates, scans).len() ==> text::free_of(
                #[trigger] mix_pairs(creates, reads, updates, scans)[i],
                ',',
            ),
        forall|i: int|
            0 <= i < mix_pairs(creates, reads, updates, scans).len() ==> (#[trigger] mix_pairs(
                creates,
                reads,
                updates,
                scans,
            )[i]).len() > 0,
{
    lemma_labels();
    lemma_pair_free("create="@, creates);
    lemma_pair_free("read="@, reads);
    lemma_pair_free("update="@, updates);
    lemma_pair_free("scan="@, scans);
    assert(mix_pairs(creates, reads, updates, scans) =~= pair("create="@, creates) + (pair(
        "read="@,
        reads,
    ) + (pair("update="@, updates) + pair("scan="@, scans))));
}

proof fn lemma_join_nonempty(parts: Seq<Seq<char>>, sep: Seq<char>)
    requires
        parts.len() > 0,
        parts.last().len() > 0,
    ensures
        text::join(parts, sep).len() > 0,
{
}

/// The text of a mix tells its four counts apart: two mixes with one text are the same mix.
pub proof fn lemma_mix_text_injective(a: SteadyStateCounts, b: SteadyStateCounts)
    requires
        mix_text(a.creates as nat, a.reads as nat, a.updates as nat, a.scans as nat) == mix_text(
            b.creates as nat,
            b.reads as nat,
            b.updates as nat,
            b.scans as nat,
        ),
    ensures
        a == b,
{
    let p = mix_pairs(a.creates as nat, a.reads as nat, a.updates as nat, a.scans as nat);
    let q = mix_pairs(b.creates as nat, b.reads as nat, b.updates as nat, b.scans as nat);
    lemma_labels();
    lemma_pairs(a.creates as nat, a.reads as nat, a.updates as nat, a.scans as nat);
    lemma_pairs(b.creates as nat, b.reads as nat, b.updates as nat, b.scans as nat);
    lemma_mix_text_empty(a);
    lemma_mix_text_empty(b);
    if p.len() > 0 && q.len() > 0 {
        text::lemma_split_join(p, ',');
        text::lemma_split_join(q, ',');
        let us = pair("update="@, a.updates as nat);
        let vs = pair("update="@, b.updates as nat);
        let ss = pair("scan="@, a.scans as nat);
        let ts = pair("scan="@, b.scans as nat);
        let rs = pair("read="@, a.reads as nat) + (us + ss);
        let ws = pair("read="@, b.reads as nat) + (vs + ts);
        lemma_same_pair("create="@, a.creates as nat, b.creates as nat, rs, ws);
        lemma_same_pair("read="@, a.reads as nat, b.reads as nat, us + ss, vs + ts);
        lemma_same_pair("update="@, a.updates as nat, b.updates as nat, ss, ts);
        let none = Seq::<Seq<char>>::empty();
        assert(ss + none =~= ss);
        assert(ts + none =~= ts);
        lemma_same_pair("scan="@, a.scans as nat, b.scans as nat, none, none);
    }
}

/// The text of a mix is empty exactly where nothing occurred.
pub proof fn lemma_mix_text_empty(a: SteadyStateCounts)
    ensures
        mix_text(a.creates as nat, a.reads as nat, a.updates as nat, a.scans as nat).len() == 0
            <==> a.creates == 0 && a.reads == 0 && a.updates == 0 && a.scans == 0,
{
    let p = mix_pairs(a.creates as nat, a.reads as nat, a.updates as nat, a.scans as nat);
    lemma_pairs(a.creates as nat, a.reads as nat, a.updates as nat, a.scans as nat);
    if a.creates > 0 || a.reads > 0 || a.updates > 0 || a.scans > 0 {
        assert(p.len() > 0);
        assert(p[p.len() - 1].len() > 0);
        lemma_join_nonempty(p, ","@);
    } else {
        assert(p =~= Seq::empty());
    }
}

impl SteadyStateCounts {
    pub open spec fn of(self, op: SteadyStateOperation) -> u64 {
        match op {
            SteadyStateOperation::Create => self.creates,
            SteadyStateOperation::Read => self.reads,
            SteadyStateOperation::Update => self.updates,
            SteadyStateOperation::Scan => self.scans,
        }
    }

    pub open spec fn with(self, op: SteadyStateOperation, n: u64) -> Self {
        match op {
            SteadyStateOperation::Create => SteadyStateCounts { creates: n, ..self },
            SteadyStateOperation::Read => SteadyStateCounts { reads: n, ..self },
            SteadyStateOperation::Update => SteadyStateCounts { updates: n, ..self },
            SteadyStateOperation::Scan => SteadyStateCounts { scans: n, ..self },
        }
    }

    pub fn new() -> (r: Self)
        ensures
            r == (SteadyStateCounts { creates: 0, reads: 0, updates: 0, scans: 0 }),
    {
        SteadyStateCounts { creates: 0, reads: 0, updates: 0, scans: 0 }
    }

    pub fn add_n(&mut self, operation: SteadyStateOperation, count: u64)
        requires
            old(self).of(operation) + count <= u64::MAX,
        ensures
            *final(self) == old(self).with(operation, (old(self).of(operation) + count) as u64),
    {
        match operation {
            SteadyStateOperation::Create => self.creates = self.creates + count,
            SteadyStateOperation::Read => self.reads = self.reads + count,
            SteadyStateOperation::Update => self.updates = self.updates + count,
            SteadyStateOperation::Scan => self.scans = self.scans + count,
        }
    }

    pub fn add(&mut self, op: SteadyStateOperation)
        requires
            old(self).of(op) < u64::MAX,
        ensures
            *final(self) == old(self).with(op, (old(self).of(op) + 1) as u64),
    {
        self.add_n(op, 1);
    }

    pub fn to_mix_string(&self) -> (r: String)
        ensures
            r@ == mix_text(
                self.creates as nat,
                self.reads as nat,
                self.updates as nat,
                self.scans as nat,
            ),
    {
        broadcast use text::lemma_texts_push;

        let mut parts: Vec<String> = Vec::new();
        assert(text::texts(parts@) =~= Seq::<Seq<char>>::empty());
        if self.creates > 0 {
            parts.push(cat2("create=", decimal_text(self.creates as u128).as_str()));
        }
        if self.reads > 0 {
            parts.push(cat2("read=", decimal_text(self.reads as u128).as_str()));
        }
        if self.updates > 0 {
            parts.push(cat2("update=", decimal_text(self.updates as u128).as_str()));
        }
        if self.scans > 0 {
            parts.push(cat2("scan=", decimal_text(self.scans as u128).as_str()));
        }
        assert(text::texts(parts@) =~= mix_pairs(
            self.creates as nat,
            self.reads as nat,
            self.updates as nat,
            self.scans as nat,
        ));
        join_with(&parts, ",")
    }
}

} // verus!
