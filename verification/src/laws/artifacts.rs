//! Steady-state artifacts: telling rows and values apart.
use crate::artifact;
use crate::artifact::{JsonNumber, JsonValue, SteadyStateRow, SteadyStateRows};
use crate::figure;
use crate::steadygate;
use crate::steadygate::SteadyStateGateInputs;
use vstd::prelude::*;

verus! {

/// An artifact is taken exactly where no two of its rows share a name; else the name that is
/// reported is one that occurs twice, and the first that does.
pub proof fn lemma_names_apart(names: Seq<Seq<char>>, n: nat)
    requires
        n <= names.len(),
    ensures
        match artifact::first_repeated(names, n) {
            None => forall|i: int, j: int|
                0 <= i < j < n ==> (#[trigger] names[i]) != (#[trigger] names[j]),
            Some(name) => exists|i: int, j: int|
                {
                    &&& 0 <= i < j < n
                    &&& (#[trigger] names[i]) == name
                    &&& (#[trigger] names[j]) == name
                    &&& forall|k: int, l: int|
                        0 <= k < l < j ==> (#[trigger] names[k]) != (#[trigger] names[l])
                },
        },
    decreases n,
{
    if n > 0 {
        lemma_names_apart(names, (n - 1) as nat);
        let before = names.take(n - 1);
        let last = names[n - 1];
        if artifact::first_repeated(names, (n - 1) as nat) is None {
            if before.contains(last) {
                let i = choose|i: int| 0 <= i < before.len() && before[i] == last;
                assert(names[i] == last && names[n - 1] == last);
            } else {
                assert forall|i: int, j: int| 0 <= i < j < n implies (#[trigger] names[i]) != (
                #[trigger] names[j]) by {
                    if j == n - 1 && names[i] == last {
                        assert(before[i] == last);
                    }
                }
            }
        }
    }
}

/// A row is found by its name exactly where one has it, and it is the first that does.
pub proof fn lemma_row_found(rows: Seq<SteadyStateRow>, name: Seq<char>, n: nat)
    requires
        n <= rows.len(),
    ensures
        match artifact::named(rows, name, n) {
            None => forall|i: int| 0 <= i < n ==> (#[trigger] rows[i]).name@ != name,
            Some(i) => {
                &&& 0 <= i < n
                &&& rows[i].name@ == name
                &&& forall|j: int| 0 <= j < i ==> (#[trigger] rows[j]).name@ != name
            },
        },
    decreases n,
{
    if n > 0 {
        lemma_row_found(rows, name, (n - 1) as nat);
    }
}

/// Two numbers are the same where they are of one kind and have one value; integers are never the
/// same as fractions.
pub proof fn lemma_numbers_compared(a: JsonNumber, b: JsonNumber)
    ensures
        a.equals(b) == b.equals(a),
        a.equals(b) ==> (a is Positive <==> b is Positive) && (a is Negative <==> b is Negative),
        a is Positive && b is Positive ==> (a.equals(b) <==> a->natural == b->natural),
        a is Negative && b is Negative ==> (a.equals(b) <==> a->integer == b->integer),
        a is Fraction && b is Fraction ==> (a.equals(b) <==> a->fraction.equals(b->fraction)),
        a is Positive && !(b is Positive) ==> !a.equals(b),
        a is Negative && !(b is Negative) ==> !a.equals(b),
        a is Fraction && !(b is Fraction) ==> !a.equals(b),
{
}

/// It does not matter which of two values is compared with which.
pub proof fn lemma_values_compared(a: JsonValue, b: JsonValue)
    ensures
        a.equals(b) == b.equals(a),
    decreases a,
{
    match (a, b) {
        (JsonValue::Number { number: x }, JsonValue::Number { number: y }) => {
            lemma_numbers_compared(x, y);
        },
        (JsonValue::Array { items: x }, JsonValue::Array { items: y }) => {
            if x@.len() == y@.len() {
                assert forall|i: int| 0 <= i < x@.len() implies (#[trigger] x@[i]).equals(y@[i])
                    == y@[i].equals(x@[i]) by {
                    lemma_values_compared(x@[i], y@[i]);
                }
                if a.equals(b) {
                    assert forall|i: int| 0 <= i < y@.len() implies (#[trigger] y@[i]).equals(
                        x@[i],
                    ) by {
                        assert(x@[i].equals(y@[i]));
                    }
                }
                if b.equals(a) {
                    assert forall|i: int| 0 <= i < x@.len() implies (#[trigger] x@[i]).equals(
                        y@[i],
                    ) by {
                        assert(y@[i].equals(x@[i]));
                    }
                }
            }
        },
        (JsonValue::Object { members: x }, JsonValue::Object { members: y }) => {
            if x@.len() == y@.len() {
                assert forall|i: int| 0 <= i < x@.len() implies (#[trigger] x@[i]).value.equals(
                    y@[i].value,
                ) == y@[i].value.equals(x@[i].value) by {
                    lemma_values_compared(x@[i].value, y@[i].value);
                }
                if a.equals(b) {
                    assert forall|i: int| 0 <= i < y@.len() implies (#[trigger] y@[i]).key@
                        == x@[i].key@ && y@[i].value.equals(x@[i].value) by {
                        assert(x@[i].key@ == y@[i].key@);
                    }
                }
                if b.equals(a) {
                    assert forall|i: int| 0 <= i < x@.len() implies (#[trigger] x@[i]).key@
                        == y@[i].key@ && x@[i].value.equals(y@[i].value) by {
                        assert(y@[i].key@ == x@[i].key@);
                    }
                }
            }
        },
        _ => {},
    }
}

/// A text is the same as a text with the same characters, and as nothing else; so are truth values,
/// and nothing but null is the same as null.
pub proof fn lemma_plain_values_compared(a: JsonValue, b: JsonValue)
    ensures
        a is Text ==> (a.equals(b) <==> b is Text && a->text@ == b->text@),
        a is Truth ==> (a.equals(b) <==> b is Truth && a->truth == b->truth),
        a is Null ==> (a.equals(b) <==> b is Null),
        a is Number ==> (a.equals(b) <==> b is Number && a->number.equals(b->number)),
        a is Array && a.equals(b) ==> b is Array && a->items@.len() == b->items@.len(),
        a is Object && a.equals(b) ==> b is Object && a->members@.len() == b->members@.len(),
        a.text() is Some <==> a is Text,
        a is Text ==> a.text() == Some(a->text@),
{
}

/// The perf gate is refused for the first row that an artifact lacks, the baseline before the current
/// one.
pub proof fn lemma_rows_refused(i: SteadyStateGateInputs, rows: Seq<Seq<char>>, n: nat)
    requires
        n <= rows.len(),
    ensures
        steadygate::rows_error(i, rows, n) matches Some(e) ==> exists|k: int|
            {
                &&& 0 <= k < n
                &&& forall|j: int|
                    0 <= j < k ==> has(i.baseline, #[trigger] rows[j]) && has(i.current, rows[j])
                &&& e == "missing steady-state row "@ + figure::quoted_text(#[trigger] rows[k])
                    + " in "@ + (if has(i.baseline, rows[k]) {
                    "current"@
                } else {
                    "baseline"@
                }) + " JSON"@
            },
        steadygate::rows_error(i, rows, n) is None ==> forall|j: int|
            0 <= j < n ==> has(i.baseline, #[trigger] rows[j]) && has(i.current, rows[j]),
    decreases n,
{
    if n > 0 {
        let m = (n - 1) as nat;
        lemma_rows_refused(i, rows, m);
        lemma_row_found(i.baseline.rows@, rows[m as int], i.baseline.rows@.len());
        lemma_row_found(i.current.rows@, rows[m as int], i.current.rows@.len());
    }
}

/// Whether an artifact has a row of the name.
pub open spec fn has(all: SteadyStateRows, name: Seq<char>) -> bool {
    exists|k: int| 0 <= k < all.rows@.len() && (#[trigger] all.rows@[k]).name@ == name
}

/// A name that occurs twice in an artifact is reported as such.
pub proof fn lemma_repeated_row(name: Seq<char>)
    ensures
        artifact::repeated_row(name) == "duplicate steady-state row "@ + figure::quoted_text(name)
            + " found"@,
{
}

} // verus!
