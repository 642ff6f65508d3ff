//! Latency recording: histograms with three significant digits.
use hdrhistogram::{AdditionError, CreationError, Histogram, RecordError};
use vstd::multiset::Multiset;
use vstd::prelude::*;

verus! {

/// `hdrhistogram::CreationError`.
#[verifier::external_type_specification]
#[verifier::external_body]
pub struct ExCreationError(hdrhistogram::CreationError);

/// `hdrhistogram::RecordError`.
#[verifier::external_type_specification]
#[verifier::external_body]
pub struct ExRecordError(hdrhistogram::RecordError);

/// `hdrhistogram::AdditionError`.
#[verifier::external_type_specification]
#[verifier::external_body]
pub struct ExAdditionError(hdrhistogram::AdditionError);

/// Latencies in microseconds, in an `hdrhistogram::Histogram` that is seen through `bins` only. It
/// is made by `Histogram::new(3)`: three significant digits, from 1 on, growing as needed.
#[verifier::external_body]
pub struct Recorder {
    histogram: Histogram<u64>,
}

/// What a recorder holds: the lowest value of each bin, as often as the bin was counted.
pub uninterp spec fn bins(r: Recorder) -> Multiset<u64>;

/// The lowest value of the bin that `value` falls into: single values up to 2047, then pairs, then
/// fours, each step twice as wide and twice as far.
pub open spec fn bin_floor(value: nat) -> nat
    decreases value,
{
    if value < 2048 {
        value
    } else {
        2 * bin_floor(value / 2)
    }
}

impl View for Recorder {
    type V = Multiset<u64>;

    open spec fn view(&self) -> Multiset<u64> {
        bins(*self)
    }
}

/// `Histogram::new(3)`: an empty histogram. Three digits are in range, and the 2048 bins it starts
/// with fit any `usize`, so it is always made.
#[verifier::external_body]
fn made() -> (r: Result<Recorder, CreationError>)
    ensures
        r is Ok,
        bins(r->Ok_0) == Multiset::<u64>::empty(),
{
    Histogram::new(3).map(|histogram| Recorder { histogram })
}

/// `Histogram::record`: counts the value in its bin, after growing the histogram where the value is
/// beyond its range. It can always grow: all values take 56320 bins. Of a histogram that has
/// counted `u64::MAX` values nothing is said, since its counts saturate.
#[verifier::external_body]
fn record_value(recorder: &mut Recorder, value: u64) -> (r: Result<(), RecordError>)
    ensures
        r is Ok,
        bins(*old(recorder)).len() < u64::MAX ==> bins(*final(recorder)) == bins(
            *old(recorder),
        ).insert(bin_floor(value as nat) as u64),
{
    recorder.histogram.record(value)
}

/// `Histogram::add`: adds the counts of another histogram with the same kind of bins, after growing
/// where its values are beyond range. Nothing is said where the counts saturate.
#[verifier::external_body]
fn add_counts(recorder: &mut Recorder, other: &Recorder) -> (r: Result<(), AdditionError>)
    ensures
        r is Ok,
        bins(*old(recorder)).len() + bins(*other).len() <= u64::MAX ==> bins(*final(recorder))
            == bins(*old(recorder)).add(bins(*other)),
{
    recorder.histogram.add(&other.histogram)
}

/// Whether `value` is the highest of its bin. The last bin of all stands one below its highest value.
pub open spec fn tops_bin(value: u64) -> bool {
    bin_floor(value as nat + 1) > bin_floor(value as nat) || value == u64::MAX - 1
}

/// Whether `counts` lists the bins: the highest value of each bin that was counted and its count,
/// in ascending order.
pub open spec fn lists(counts: Seq<(u64, u64)>, held: Multiset<u64>) -> bool {
    &&& forall|i: int, j: int| 0 <= i < j < counts.len() ==> counts[i].0 < counts[j].0
    &&& forall|i: int|
        0 <= i < counts.len() ==> (#[trigger] counts[i]).1 > 0 && tops_bin(counts[i].0)
            && held.count(bin_floor(counts[i].0 as nat) as u64) == counts[i].1
    &&& forall|v: u64| #[trigger]
        held.count(v) > 0 ==> exists|i: int|
            0 <= i < counts.len() && bin_floor((#[trigger] counts[i]).0 as nat) == v
}

/// `Histogram::iter_recorded`: the counted bins in ascending order, each by its highest value; the
/// last bin of all by the value below, since its range saturates.
#[verifier::external_body]
fn recorded(recorder: &Recorder) -> (r: Vec<(u64, u64)>)
    ensures
        lists(r@, bins(*recorder)),
{
    let bins = recorder.histogram.iter_recorded();
    bins.map(|bin| (bin.value_iterated_to(), bin.count_at_value())).collect()
}

impl Recorder {
    /// A recorder without a latency.
    pub fn new() -> (r: Self)
        ensures
            r@ == Multiset::<u64>::empty(),
    {
        match made() {
            Ok(recorder) => recorder,
            Err(_) => vstd::pervasive::unreached(),
        }
    }

    /// Records one latency.
    pub fn record(&mut self, micros: u64)
        ensures
            old(self)@.len() < u64::MAX ==> final(self)@ == old(self)@.insert(
                bin_floor(micros as nat) as u64,
            ),
    {
        let _done: Result<(), RecordError> = record_value(self, micros);
    }

    /// Adds the latencies of another recorder.
    pub fn merge(&mut self, other: &Recorder)
        ensures
            old(self)@.len() + other@.len() <= u64::MAX ==> final(self)@ == old(self)@.add(other@),
    {
        let _done: Result<(), AdditionError> = add_counts(self, other);
    }

    /// The counted bins in ascending order: the highest value of each and its count.
    pub fn counts(&self) -> (r: Vec<(u64, u64)>)
        ensures
            lists(r@, self@),
    {
        recorded(self)
    }
}

/// The bin of a value starts at or below it, less than 1/1024 of its start away.
pub proof fn lemma_bin_precision(value: nat)
    ensures
        bin_floor(value) <= value,
        value < 1024 ==> bin_floor(value) == value,
        value >= 1024 ==> 1024 * (value - bin_floor(value) + 1) <= bin_floor(value),
    decreases value,
{
    if value >= 2048 {
        lemma_bin_precision(value / 2);
    }
}

} // verus!
