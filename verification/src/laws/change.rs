//! Changes in percent: which of them are too large.
use crate::binary64;
use crate::binary64::Float64;
use crate::figure;
use crate::figure::Change;
use vstd::prelude::*;

verus! {

/// One where the condition holds.
pub open spec fn one_if(holds: bool) -> nat {
    if holds {
        1
    } else {
        0
    }
}

/// Whether `current` fell below `baseline` by more than `limit` percent, where `quotient` is their
/// difference in percent of `baseline`: nothing falls from zero, and what is equal did not fall.
pub open spec fn fell(current: Float64, baseline: Float64, quotient: Float64, limit: Float64) -> bool {
    &&& !baseline.equals(Float64::zero_spec())
    &&& baseline.is_finite_spec() ==> !current.equals(baseline)
    &&& quotient.less(limit.negated())
}

/// Whether `current` rose above `baseline` by more than `limit` percent: what was zero and is
/// measured now rose beyond every finite limit, and what is equal did not rise.
pub open spec fn rose(current: Float64, baseline: Float64, quotient: Float64, limit: Float64) -> bool {
    if baseline.equals(Float64::zero_spec()) {
        Float64::zero_spec().less(current) && limit.less(Float64 { bits: 0x7FF0_0000_0000_0000 })
    } else {
        &&& baseline.is_finite_spec() ==> !current.equals(baseline)
        &&& limit.less(quotient)
    }
}

/// A change is below minus a limit exactly where the figure fell, and above it exactly where it rose.
pub proof fn lemma_change_judged(
    current: Float64,
    baseline: Float64,
    quotient: Float64,
    limit: Float64,
)
    requires
        !limit.less(Float64::zero_spec()),
    ensures
        figure::percent_change_spec(current, baseline, quotient).less(limit.negated()) == fell(
            current,
            baseline,
            quotient,
            limit,
        ),
        limit.less(figure::percent_change_spec(current, baseline, quotient)) == rose(
            current,
            baseline,
            quotient,
            limit,
        ),
{
}

/// A change has the direction of the figures, wherever the quotient has it: it is negative exactly
/// where a figure fell and positive exactly where it rose.
pub proof fn lemma_change_direction(current: Float64, baseline: Float64, quotient: Float64)
    requires
        baseline.is_finite_spec(),
        current.is_finite_spec(),
        !baseline.less(Float64::zero_spec()),
        !current.less(Float64::zero_spec()),
        Float64::zero_spec().less(baseline) ==> {
            &&& quotient.less(Float64::zero_spec()) == current.less(baseline)
            &&& Float64::zero_spec().less(quotient) == baseline.less(current)
        },
    ensures
        ({
            let change = figure::percent_change_spec(current, baseline, quotient);
            &&& change.less(Float64::zero_spec()) == current.less(baseline)
            &&& Float64::zero_spec().less(change) == baseline.less(current)
        }),
{
}

/// The two texts of a change agree: the one with a sign is the other with a plus before it, where the
/// change is told without the quotient and the baseline is not negative; else both are the
/// quotient's.
pub proof fn lemma_change_texts(current: Float64, baseline: Float64, quotient: Change)
    ensures
        ({
            let fixed = figure::change_fixed(current, baseline, quotient);
            let signed = figure::change_signed(current, baseline, quotient);
            let zero = Float64::zero_spec();
            let still = baseline.is_finite_spec() && current.equals(baseline);
            &&& !baseline.equals(zero) && !still ==> fixed == quotient.fixed@ && signed
                == quotient.signed@
            &&& baseline.equals(zero) || (still && !baseline.less(zero)) ==> signed == seq!['+']
                + fixed
            &&& baseline.equals(zero) && zero.less(current) ==> fixed == "inf"@
            &&& baseline.equals(zero) && !zero.less(current) ==> fixed == "0.00"@
            &&& !baseline.equals(zero) && still && !baseline.less(zero) ==> fixed == "0.00"@
            &&& still && baseline.less(zero) ==> fixed == "-0.00"@ && signed == "-0.00"@
        }),
{
    reveal_strlit("inf");
    reveal_strlit("+inf");
    reveal_strlit("0.00");
    reveal_strlit("+0.00");
    reveal_strlit("-0.00");
    let fixed = figure::change_fixed(current, baseline, quotient);
    let signed = figure::change_signed(current, baseline, quotient);
    assert("+inf"@ =~= seq!['+'] + "inf"@);
    assert("+0.00"@ =~= seq!['+'] + "0.00"@);
}

/// A report lists its failures line by line, in their order, and says that it passed exactly where
/// there is none.
pub proof fn lemma_conclusion(failures: Seq<Seq<char>>, last: Seq<char>)
    ensures
        figure::conclusion(Seq::empty()) == "\nResult: PASS\n"@,
        figure::conclusion(failures.push(last)) == (if failures.len() == 0 {
            "\nResult: FAIL\n"@
        } else {
            figure::conclusion(failures)
        }) + "- "@ + last + "\n"@,
{
    let more = failures.push(last);
    let lines = figure::failure_lines(more);
    assert(lines.drop_last() =~= figure::failure_lines(failures));
    assert(lines.last() == "- "@ + last + "\n"@);
    if failures.len() == 0 {
        assert(figure::failure_lines(failures) =~= Seq::empty());
        assert(figure::flat(figure::failure_lines(failures)) =~= Seq::empty());
    }
    assert(figure::conclusion(more) =~= (if failures.len() == 0 {
        "\nResult: FAIL\n"@
    } else {
        figure::conclusion(failures)
    }) + "- "@ + last + "\n"@);
}

/// What stays the same changes by zero, with the sign of what it is measured against; what was zero
/// and is more now changes without bound, and what was zero and is no more does not change.
pub proof fn lemma_plain_changes(current: Float64, baseline: Float64, quotient: Float64)
    ensures
        baseline.is_finite_spec() && current.equals(baseline) ==> figure::percent_change_spec(
            current,
            baseline,
            quotient,
        ).bits == if baseline.less(Float64::zero_spec()) {
            0x8000_0000_0000_0000
        } else {
            0u64
        },
        baseline.equals(Float64::zero_spec()) ==> figure::percent_change_spec(
            current,
            baseline,
            quotient,
        ).bits == if Float64::zero_spec().less(current) {
            0x7FF0_0000_0000_0000
        } else {
            0u64
        },
{
}

} // verus!
