//! Query vectors for vector-search scans, taken from inserted records.
use crate::binary64::Float32;
use crate::failure::Failure;
use crate::generator;
use crate::generator::{draw_below, seeded, Generator};
use crate::operation::VectorQuerySet;
use crate::phase;
use crate::text::cat3;
use vstd::prelude::*;

verus! {

/// How many records are held out: at most as many as there are samples.
pub open spec fn holdout_count(samples: u32, count: usize) -> nat {
    if count < samples {
        count as nat
    } else {
        samples as nat
    }
}

/// The `i`-th index that a generator with the given seed picks among the samples.
pub open spec fn holdout_pick(samples: u32, seed: u64, i: nat) -> u32 {
    generator::draw_of(usize::BITS, seed, Seq::new(i, |k: int| samples), samples)
}

/// The sample indices that the query vectors come from.
pub open spec fn holdout_picks(samples: u32, count: usize, seed: u64) -> Seq<u32> {
    Seq::new(holdout_count(samples, count), |i: int| holdout_pick(samples, seed, i as nat))
}

/// Whether the indices were picked with the given seed.
pub open spec fn are_held_out(ids: Seq<u32>, samples: u32, count: usize, seed: u64) -> bool {
    &&& ids == holdout_picks(samples, count, seed)
    &&& forall|i: int| 0 <= i < ids.len() ==> (#[trigger] ids[i]) < samples
}

/// Picks the sample indices that the query vectors come from, by a generator with the given seed.
pub fn holdout_indices(samples: u32, count: usize, seed: u64) -> (r: Vec<u32>)
    ensures
        are_held_out(r@, samples, count, seed),
        r@.len() == holdout_count(samples, count),
{
    let total: usize = samples as usize;
    let n: usize = if count < total {
        count
    } else {
        total
    };
    let mut generator: Generator = seeded(seed);
    let mut out: Vec<u32> = Vec::new();
    assert(Seq::new(0, |k: int| samples) =~= Seq::<u32>::empty());
    while out.len() < n
        invariant
            out@.len() <= n <= samples,
            generator@ == (seed, Seq::new(out@.len(), |k: int| samples)),
            forall|i: int|
                0 <= i < out@.len() ==> (#[trigger] out@[i]) < samples && out@[i] == holdout_pick(
                    samples,
                    seed,
                    i as nat,
                ),
        decreases n - out@.len(),
    {
        let pick: u32 = draw_below(&mut generator, samples);
        out.push(pick);
        assert(generator@.1 =~= Seq::new(out@.len(), |k: int| samples));
    }
    assert(out@ =~= holdout_picks(samples, count, seed));
    out
}

/// The pick is deterministic: two picks among the same samples, of the same count and with the same
/// seed, agree.
pub proof fn lemma_holdout_deterministic(
    a: Seq<u32>,
    b: Seq<u32>,
    samples: u32,
    count: usize,
    seed: u64,
)
    requires
        are_held_out(a, samples, count, seed),
        are_held_out(b, samples, count, seed),
    ensures
        a == b,
{
}

/// Whoever holds out fewer records holds out the first of them.
pub proof fn lemma_holdout_prefix(samples: u32, fewer: usize, more: usize, seed: u64)
    requires
        fewer <= more,
    ensures
        holdout_picks(samples, fewer, seed).is_prefix_of(holdout_picks(samples, more, seed)),
{
    let a = holdout_picks(samples, fewer, seed);
    let b = holdout_picks(samples, more, seed);
    assert(a =~= b.take(a.len() as int));
}

/// An element of an array column.
#[derive(Clone, Copy, Debug)]
pub enum ArrayElement {
    /// A number, rounded to single precision.
    Number { value: Float32 },
    Other,
}

/// A column of a row that was read back.
pub enum FieldValue {
    FloatVector { vector: Vec<Float32> },
    Array { elements: Vec<ArrayElement> },
    Bytes { bytes: Vec<u8> },
    Other,
}

/// The little-endian word at place `i` of a payload.
pub open spec fn word(bytes: Seq<u8>, i: int) -> u32 {
    (bytes[4 * i] + 0x100 * bytes[4 * i + 1] + 0x1_0000 * bytes[4 * i + 2] + 0x100_0000 * bytes[4
        * i + 3]) as u32
}

/// The vector in a column, if it has one: a vector as it is, an array of numbers, or a payload of
/// packed little-endian words.
pub open spec fn vector_in(value: Option<FieldValue>) -> Option<Seq<u32>> {
    match value {
        Some(FieldValue::FloatVector { vector }) => Some(vector@.map_values(|f: Float32| f.bits)),
        Some(FieldValue::Array { elements }) => if forall|i: int|
            0 <= i < elements@.len() ==> (#[trigger] elements@[i]) is Number {
            Some(elements@.map_values(|e: ArrayElement| e->value.bits))
        } else {
            None
        },
        Some(FieldValue::Bytes { bytes }) => if bytes@.len() % 4 == 0 {
            Some(Seq::new(bytes@.len() / 4, |i: int| word(bytes@, i)))
        } else {
            None
        },
        Some(FieldValue::Other) => None,
        None => None,
    }
}

pub open spec fn bits_of(vector: Seq<Float32>) -> Seq<u32> {
    vector.map_values(|f: Float32| f.bits)
}

fn words_of(bytes: &Vec<u8>) -> (r: Vec<Float32>)
    requires
        bytes@.len() % 4 == 0,
    ensures
        bits_of(r@) == Seq::new(bytes@.len() / 4, |i: int| word(bytes@, i)),
{
    let n: usize = bytes.len() / 4;
    let mut out: Vec<Float32> = Vec::new();
    let mut i: usize = 0;
    while i < n
        invariant
            i <= n == bytes@.len() / 4,
            bytes@.len() == 4 * n <= usize::MAX,
            out@.len() == i,
            forall|k: int| 0 <= k < i ==> (#[trigger] out@[k]).bits == word(bytes@, k),
        decreases n - i,
    {
        let at: usize = 4 * i;
        let bits: u32 = bytes[at] as u32 + 0x100 * (bytes[at + 1] as u32) + 0x1_0000 * (bytes[at
            + 2] as u32) + 0x100_0000 * (bytes[at + 3] as u32);
        out.push(Float32 { bits });
        i = i + 1;
    }
    assert(bits_of(out@) =~= Seq::new(bytes@.len() / 4, |i: int| word(bytes@, i)));
    out
}

/// The vector in a column of a row that was read back; `value` is the column, where the row has it.
/// Any other shape is unsupported.
pub fn extract_vector_field(value: Option<&FieldValue>) -> (r: Result<Vec<Float32>, Failure>)
    ensures
        match (
            r,
            vector_in(
                match value {
                    Some(v) => Some(*v),
                    None => None,
                },
            ),
        ) {
            (Ok(v), Some(bits)) => bits_of(v@) == bits,
            (Err(e), None) => phase::unsupported(e@),
            _ => false,
        },
{
    match value {
        Some(FieldValue::FloatVector { vector }) => {
            let mut out: Vec<Float32> = Vec::new();
            let mut i: usize = 0;
            while i < vector.len()
                invariant
                    i <= vector@.len(),
                    out@ =~= vector@.take(i as int),
                decreases vector@.len() - i,
            {
                out.push(vector[i]);
                i = i + 1;
            }
            assert(out@ =~= vector@);
            Ok(out)
        },
        Some(FieldValue::Array { elements }) => {
            let mut out: Vec<Float32> = Vec::new();
            let mut i: usize = 0;
            #[verifier::loop_isolation(false)]
            while i < elements.len()
                invariant
                    i <= elements@.len(),
                    out@.len() == i,
                    forall|k: int|
                        0 <= k < i ==> (#[trigger] elements@[k]) is Number && out@[k]
                            == elements@[k]->value,
                decreases elements@.len() - i,
            {
                match elements[i] {
                    ArrayElement::Number { value } => out.push(value),
                    ArrayElement::Other => {
                        assert(!(elements@[i as int] is Number));
                        return Err(Failure::new("NotSupported".to_owned()));
                    },
                }
                i = i + 1;
            }
            assert(bits_of(out@) =~= elements@.map_values(|e: ArrayElement| e->value.bits));
            Ok(out)
        },
        Some(FieldValue::Bytes { bytes }) => {
            if bytes.len() % 4 == 0 {
                Ok(words_of(bytes))
            } else {
                Err(Failure::new("NotSupported".to_owned()))
            }
        },
        _ => Err(Failure::new("NotSupported".to_owned())),
    }
}

/// A query set being built from held-out records.
pub struct QueryBuild {
    /// The records to read.
    pub ids: Vec<u32>,
    /// The vectors of the records read so far.
    pub queries: Vec<Vec<Float32>>,
}

pub open spec fn skip_line(name: Seq<char>, cause: Seq<char>) -> Seq<char> {
    "vector holdout: skipping scan `"@ + name + "` ("@ + cause + ")"@
}

fn skipping(name: &str, cause: &str) -> (r: String)
    ensures
        r@ == skip_line(name@, cause@),
{
    let head: String = cat3("vector holdout: skipping scan `", name, "` (");
    cat3(head.as_str(), cause, ")")
}

/// The line for a scan that is skipped because a held-out record could not be read.
pub fn read_skip_line(name: &str, chain: &str) -> (r: String)
    ensures
        r@ == skip_line(name@, "read: "@ + chain@),
{
    let cause: String = "read: ".to_owned().concat(chain);
    skipping(name, cause.as_str())
}

impl QueryBuild {
    /// Every vector read so far belongs to one of the records.
    pub open spec fn wf(self) -> bool {
        self.queries@.len() <= self.ids@.len()
    }

    /// Chooses the records that the query vectors come from.
    pub fn new(samples: u32, count: usize, seed: u64) -> (r: Self)
        ensures
            r.wf(),
            are_held_out(r.ids@, samples, count, seed),
            r.ids@.len() == holdout_count(samples, count),
            r.queries@.len() == 0,
    {
        QueryBuild { ids: holdout_indices(samples, count, seed), queries: Vec::new() }
    }

    /// The record to read next; none where all are read.
    pub fn next(&self) -> (r: Option<u32>)
        requires
            self.wf(),
        ensures
            r == if self.queries@.len() < self.ids@.len() {
                Some(self.ids@[self.queries@.len() as int])
            } else {
                None
            },
    {
        if self.queries.len() < self.ids.len() {
            Some(self.ids[self.queries.len()])
        } else {
            None
        }
    }

    /// Takes in the vector column of the record that was read. A record without a vector ends the
    /// build with the line to report.
    pub fn read(&mut self, value: Option<&FieldValue>, name: &str) -> (r: Result<(), String>)
        requires
            old(self).wf(),
            old(self).queries@.len() < old(self).ids@.len(),
        ensures
            final(self).wf(),
            final(self).ids == old(self).ids,
            match vector_in(
                match value {
                    Some(v) => Some(*v),
                    None => None,
                },
            ) {
                Some(bits) => {
                    &&& r is Ok
                    &&& final(self).queries@.len() == old(self).queries@.len() + 1
                    &&& final(self).queries@.drop_last() == old(self).queries@
                    &&& bits_of(final(self).queries@.last()@) == bits
                },
                None => {
                    &&& r matches Err(line) && line@ == skip_line(name@, "extract: "@
                        + "NotSupported"@)
                    &&& final(self).queries == old(self).queries
                },
            },
    {
        match extract_vector_field(value) {
            Ok(vector) => {
                self.queries.push(vector);
                assert(self.queries@.drop_last() =~= old(self).queries@);
                Ok(())
            },
            Err(e) => {
                let cause: String = "extract: ".to_owned().concat(e.message());
                Err(skipping(name, cause.as_str()))
            },
        }
    }

    /// The query set, once every record is read; an empty one ends with the line to report.
    pub fn finish(self, name: &str) -> (r: Result<VectorQuerySet, String>)
        ensures
            match r {
                Ok(set) => set.queries == self.queries && set.queries@.len() > 0,
                Err(line) => self.queries@.len() == 0 && line@ == skip_line(
                    name@,
                    "empty query set"@,
                ),
            },
    {
        if self.queries.len() == 0 {
            return Err(skipping(name, "empty query set"));
        }
        Ok(VectorQuerySet { queries: self.queries })
    }
}

} // verus!
