//! Numbers of the perf gate reports, with their renderings, and what reports are made of.
use crate::binary64;
use crate::binary64::Float64;
use crate::text;
use crate::text::cat2;
use vstd::prelude::*;

verus! {

/// What `Debug` formatting makes of a text: quotes around it, special characters escaped.
pub uninterp spec fn quoted_text(s: Seq<char>) -> Seq<char>;

/// The `Debug` formatting of `str`, by `format!`: the text in double quotes, with quotes, backslashes
/// and characters that do not print escaped. What exactly is escaped is left to its name.
#[verifier::external_body]
pub(crate) fn quoted(s: &str) -> (r: String)
    ensures
        r@ == quoted_text(s@),
{
    format!("{s:?}")
}

/// A number with its renderings.
pub struct Figure {
    pub value: Float64,
    /// With two decimals.
    pub fixed: String,
    /// In its shortest form.
    pub plain: String,
}

/// A change in percent with its renderings.
pub struct Change {
    pub value: Float64,
    /// With two decimals.
    pub fixed: String,
    /// With two decimals and a sign in any case.
    pub signed: String,
}

/// Whether a change can be told without computing it: a change from zero, or none at all.
pub open spec fn is_plain_change(current: Float64, baseline: Float64) -> bool {
    baseline.equals(Float64::zero_spec()) || (baseline.is_finite_spec() && current.equals(baseline))
}

/// The zero that a change of nothing comes to: it has the sign of what it is divided by.
pub open spec fn no_change_of(baseline: Float64) -> Float64 {
    if baseline.less(Float64::zero_spec()) {
        Float64::zero_spec().negated()
    } else {
        Float64::zero_spec()
    }
}

/// A change in percent: anything measured is infinitely more than nothing, and what stays the same
/// changes by nothing. Any other change is the `quotient`.
pub open spec fn percent_change_spec(
    current: Float64,
    baseline: Float64,
    quotient: Float64,
) -> Float64 {
    if !is_plain_change(current, baseline) {
        quotient
    } else if baseline.equals(Float64::zero_spec()) && Float64::zero_spec().less(current) {
        Float64 { bits: binary64::INFINITE }
    } else {
        no_change_of(baseline)
    }
}

fn plain_change(current: Float64, baseline: Float64) -> (r: bool)
    ensures
        r == is_plain_change(current, baseline),
{
    baseline.same(Float64::zero()) || (baseline.is_finite() && current.same(baseline))
}

/// The change from `baseline` to `current` in percent, where `quotient` is their difference in
/// percent of `baseline`.
pub fn percent_change(current: Float64, baseline: Float64, quotient: Float64) -> (r: Float64)
    ensures
        r == percent_change_spec(current, baseline, quotient),
{
    if !plain_change(current, baseline) {
        quotient
    } else if baseline.same(Float64::zero()) && Float64::zero().lt(current) {
        Float64::infinity()
    } else if baseline.lt(Float64::zero()) {
        Float64::zero().neg()
    } else {
        Float64::zero()
    }
}

/// The text of a change with two decimals.
pub open spec fn change_fixed(current: Float64, baseline: Float64, quotient: Change) -> Seq<char> {
    if !is_plain_change(current, baseline) {
        quotient.fixed@
    } else if baseline.equals(Float64::zero_spec()) && Float64::zero_spec().less(current) {
        "inf"@
    } else if baseline.less(Float64::zero_spec()) {
        "-0.00"@
    } else {
        "0.00"@
    }
}

/// The text of a change with two decimals and a sign.
pub open spec fn change_signed(current: Float64, baseline: Float64, quotient: Change) -> Seq<char> {
    if !is_plain_change(current, baseline) {
        quotient.signed@
    } else if baseline.equals(Float64::zero_spec()) && Float64::zero_spec().less(current) {
        "+inf"@
    } else if baseline.less(Float64::zero_spec()) {
        "-0.00"@
    } else {
        "+0.00"@
    }
}

/// The change between two numbers, with its renderings.
pub fn change(current: Float64, baseline: Float64, quotient: &Change) -> (r: Change)
    ensures
        r.value == percent_change_spec(current, baseline, quotient.value),
        r.fixed@ == change_fixed(current, baseline, *quotient),
        r.signed@ == change_signed(current, baseline, *quotient),
{
    let value: Float64 = percent_change(current, baseline, quotient.value);
    if !plain_change(current, baseline) {
        Change { value, fixed: quotient.fixed.clone(), signed: quotient.signed.clone() }
    } else if baseline.same(Float64::zero()) && Float64::zero().lt(current) {
        Change { value, fixed: "inf".to_owned(), signed: "+inf".to_owned() }
    } else if baseline.lt(Float64::zero()) {
        Change { value, fixed: "-0.00".to_owned(), signed: "-0.00".to_owned() }
    } else {
        Change { value, fixed: "0.00".to_owned(), signed: "+0.00".to_owned() }
    }
}

/// What a gate found.
pub struct Evaluation {
    pub report: String,
    pub passed: bool,
}

/// The given texts, one after the other.
pub open spec fn flat(parts: Seq<Seq<char>>) -> Seq<char>
    decreases parts.len(),
{
    if parts.len() == 0 {
        Seq::empty()
    } else {
        flat(parts.drop_last()) + parts.last()
    }
}

/// A list with the message, where there is reason for it.
pub open spec fn note(wanted: bool, message: Seq<char>) -> Seq<Seq<char>> {
    if wanted {
        seq![message]
    } else {
        Seq::empty()
    }
}

/// The lines that list the failures.
pub open spec fn failure_lines(failures: Seq<Seq<char>>) -> Seq<Seq<char>> {
    Seq::new(failures.len(), |i: int| "- "@ + failures[i] + "\n"@)
}

/// The end of a report: a gate passes where nothing failed.
pub open spec fn conclusion(failures: Seq<Seq<char>>) -> Seq<char> {
    if failures.len() == 0 {
        "\nResult: PASS\n"@
    } else {
        "\nResult: FAIL\n"@ + flat(failure_lines(failures))
    }
}

/// Ends a report with its result.
pub fn conclude(report: String, failures: &Vec<String>) -> (r: Evaluation)
    ensures
        r.report@ == report@ + conclusion(text::texts(failures@)),
        r.passed == (failures@.len() == 0),
{
    let mut out: String = report;
    let ghost all = text::texts(failures@);
    if failures.len() == 0 {
        out.append("\nResult: PASS\n");
        return Evaluation { report: out, passed: true };
    }
    out.append("\nResult: FAIL\n");
    let ghost head = out@;
    let ghost lines = failure_lines(all);
    let mut i: usize = 0;
    assert(lines.take(0) =~= Seq::empty());
    assert(head + flat(lines.take(0)) =~= head);
    while i < failures.len()
        invariant
            i <= failures@.len(),
            all == text::texts(failures@),
            lines == failure_lines(all),
            out@ == head + flat(lines.take(i as int)),
        decreases failures@.len() - i,
    {
        let line: String = cat2("- ", failures[i].as_str()).concat("\n");
        out.append(line.as_str());
        assert(lines.take(i + 1).drop_last() =~= lines.take(i as int));
        assert(lines.take(i + 1).last() == line@);
        assert(out@ =~= head + flat(lines.take(i + 1)));
        i = i + 1;
    }
    assert(lines.take(i as int) =~= lines);
    assert(out@ =~= report@ + conclusion(all));
    Evaluation { report: out, passed: false }
}

/// Adds a message to a list, where there is reason for it.
pub fn add_note(list: &mut Vec<String>, wanted: bool, message: String)
    ensures
        text::texts(final(list)@) == text::texts(old(list)@) + note(wanted, message@),
{
    broadcast use text::lemma_texts_push;

    if wanted {
        list.push(message);
    }
    assert(text::texts(list@) =~= text::texts(old(list)@) + note(wanted, message@));
}

/// What stays the same passes every limit, for better or worse.
pub proof fn lemma_no_change(current: Float64, baseline: Float64, quotient: Float64, limit: Float64)
    requires
        baseline.is_finite_spec(),
        current.equals(baseline),
        !limit.less(Float64::zero_spec()),
    ensures
        !limit.less(percent_change_spec(current, baseline, quotient)),
        !percent_change_spec(current, baseline, quotient).less(limit.negated()),
{
}

} // verus!
