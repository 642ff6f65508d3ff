//! Query vectors: what is held out, and what is read back.
use crate::binary64::Float32;
use crate::vector;
use crate::vector::{ArrayElement, FieldValue};
use vstd::prelude::*;

verus! {

/// A vector packed into bytes: each number as four bytes, the lowest first.
pub open spec fn packed(words: Seq<u32>) -> Seq<u8> {
    Seq::new(
        4 * words.len(),
        |i: int|
            {
                let w = words[i / 4] as int;
                (if i % 4 == 0 {
                    w % 256
                } else if i % 4 == 1 {
                    w / 256 % 256
                } else if i % 4 == 2 {
                    w / 65536 % 256
                } else {
                    w / 16777216
                }) as u8
            },
    )
}

/// What was packed is read back.
pub proof fn lemma_packed_read_back(words: Seq<u32>, bytes: Vec<u8>)
    requires
        bytes@ == packed(words),
    ensures
        vector::vector_in(Some(FieldValue::Bytes { bytes })) == Some(words),
{
    let n = words.len();
    assert(bytes@.len() == 4 * n);
    assert(4 * n % 4 == 0 && 4 * n / 4 == n);
    let read = Seq::new(bytes@.len() / 4, |i: int| vector::word(bytes@, i));
    assert forall|i: int| 0 <= i < n implies vector::word(bytes@, i) == #[trigger] words[i] by {
        let w = words[i] as int;
        assert((4 * i) / 4 == i && (4 * i) % 4 == 0);
        assert((4 * i + 1) / 4 == i && (4 * i + 1) % 4 == 1);
        assert((4 * i + 2) / 4 == i && (4 * i + 2) % 4 == 2);
        assert((4 * i + 3) / 4 == i && (4 * i + 3) % 4 == 3);
        assert(bytes@[4 * i] == w % 256);
        assert(bytes@[4 * i + 1] == w / 256 % 256);
        assert(bytes@[4 * i + 2] == w / 65536 % 256);
        assert(bytes@[4 * i + 3] == w / 16777216);
    }
    assert(read =~= words);
}

/// A column has a vector exactly where it is one, is an array of nothing but numbers, or is a
/// payload of whole words; a vector and an array give their numbers one for one.
pub proof fn lemma_vectors_found(
    vector: Vec<Float32>,
    elements: Vec<ArrayElement>,
    bytes: Vec<u8>,
    i: int,
)
    ensures
        vector::vector_in(None) is None,
        vector::vector_in(Some(FieldValue::Other)) is None,
        vector::vector_in(Some(FieldValue::FloatVector { vector })) matches Some(bits)
            && bits.len() == vector@.len() && (0 <= i < bits.len() ==> bits[i] == vector@[i].bits),
        vector::vector_in(Some(FieldValue::Array { elements })) is None <==> exists|k: int|
            0 <= k < elements@.len() && (#[trigger] elements@[k]) is Other,
        vector::vector_in(Some(FieldValue::Array { elements })) matches Some(bits) ==> bits.len()
            == elements@.len() && (0 <= i < bits.len() ==> elements@[i] == (ArrayElement::Number {
            value: Float32 { bits: bits[i] },
        })),
        vector::vector_in(Some(FieldValue::Bytes { bytes })) is Some <==> exists|words: int|
            bytes@.len() == #[trigger] (4 * words),
        vector::vector_in(Some(FieldValue::Bytes { bytes })) matches Some(bits) ==> 4 * bits.len()
            == bytes@.len(),
{
    if bytes@.len() % 4 == 0 {
        assert(bytes@.len() == 4 * (bytes@.len() / 4));
    }
    if exists|k: int| 0 <= k < elements@.len() && (#[trigger] elements@[k]) is Other {
        let k = choose|k: int| 0 <= k < elements@.len() && (#[trigger] elements@[k]) is Other;
        assert(!(elements@[k] is Number));
    } else {
        assert forall|k: int| 0 <= k < elements@.len() implies (#[trigger] elements@[k])
            is Number by {
            assert(!(elements@[k] is Other));
        }
    }
}

/// As many records are held out as are asked for, but no more than there are.
pub proof fn lemma_held_out(samples: u32, count: usize)
    ensures
        vector::holdout_count(samples, count) <= count,
        vector::holdout_count(samples, count) <= samples,
        vector::holdout_count(samples, count) == count || vector::holdout_count(samples, count)
            == samples,
{
}

} // verus!
