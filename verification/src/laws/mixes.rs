//! Custom operation mixes: which are accepted, and the schedule that they stand for.
use crate::binary64::Float64;
use crate::decimal;
use crate::mix;
use crate::mix::MixFigure;
use crate::text;
use crate::workload::SteadyStateOperation;
use vstd::prelude::*;

verus! {

/// The word for an operation in a mix.
pub open spec fn word_of(op: SteadyStateOperation) -> Seq<char> {
    match op {
        SteadyStateOperation::Create => "create"@,
        SteadyStateOperation::Read => "read"@,
        SteadyStateOperation::Update => "update"@,
        SteadyStateOperation::Scan => "scan"@,
    }
}

/// A mix names an operation by its word, and by no other.
pub proof fn lemma_operation_words(name: Seq<char>, op: SteadyStateOperation)
    ensures
        mix::operation_named(name) == Some(op) <==> name == word_of(op),
        mix::operation_named(name) is None <==> forall|o: SteadyStateOperation|
            name != #[trigger] word_of(o),
{
    reveal_strlit("create");
    reveal_strlit("read");
    reveal_strlit("update");
    reveal_strlit("scan");
    assert("create"@.len() == 6 && "read"@.len() == 4 && "update"@.len() == 6 && "scan"@.len() == 4);
    assert("create"@[0] != "update"@[0]);
    assert("read"@[0] != "scan"@[0]);
    assert(word_of(SteadyStateOperation::Create) == "create"@);
    assert(word_of(SteadyStateOperation::Read) == "read"@);
    assert(word_of(SteadyStateOperation::Update) == "update"@);
    assert(word_of(SteadyStateOperation::Scan) == "scan"@);
}

/// The name of a mix part: what stands before its first `=`.
pub open spec fn name_of(part: Seq<char>) -> Seq<char> {
    part.take(text::first_index(part, '=') as int)
}

/// Whether a part of a mix is of use: the word of an operation, `=`, and a positive number that
/// takes whole slots of the period.
pub open spec fn usable(part: Seq<char>, figure: MixFigure, period: u32) -> bool {
    &&& part.contains('=')
    &&& exists|op: SteadyStateOperation| name_of(part) == #[trigger] word_of(op)
    &&& figure matches MixFigure::Ratio { ratio } && ratio.is_finite_spec() && !ratio.less_or_equal(
        Float64::zero_spec(),
    )
    &&& decimal::exact_slots(mix::part_value(part), period) is Some
}

/// The slots that the first `n` parts take.
pub open spec fn slots_before(parts: Seq<Seq<char>>, period: u32, n: nat) -> nat
    decreases n,
{
    if n == 0 {
        0
    } else {
        slots_before(parts, period, (n - 1) as nat) + decimal::exact_slots(
            mix::part_value(parts[n - 1]),
            period,
        )->0
    }
}

proof fn lemma_part_usable(part: Seq<char>, figure: MixFigure, period: u32)
    ensures
        mix::mix_part(part, figure, period) is Ok <==> usable(part, figure, period),
        mix::mix_part(part, figure, period) matches Ok((op, slots)) ==> word_of(op) == name_of(part)
            && decimal::exact_slots(mix::part_value(part), period) == Some(slots),
{
    text::lemma_first_index(part, '=');
    let k = text::first_index(part, '=') as int;
    if k < part.len() {
        assert(part[k] == '=');
        match mix::operation_named(part.take(k)) {
            Some(op) => {
                lemma_operation_words(part.take(k), op);
                assert(name_of(part) == word_of(op));
            },
            None => {
                lemma_operation_words(part.take(k), SteadyStateOperation::Read);
            },
        }
    }
}

/// Whether the slots between two places are all of the operation that a part names.
pub open spec fn fills(
    slots: Seq<SteadyStateOperation>,
    from: nat,
    to: nat,
    name: Seq<char>,
) -> bool {
    forall|i: int| from <= i < to ==> word_of(#[trigger] slots[i]) == name
}

#[verifier::spinoff_prover]
proof fn lemma_slots_taken(parts: Seq<Seq<char>>, figures: Seq<MixFigure>, period: u32, n: nat)
    requires
        n <= parts.len(),
    ensures
        mix::mix_slots(parts, figures, period, n) is Ok <==> forall|k: int|
            0 <= k < n ==> usable(#[trigger] parts[k], figures[k], period),
        mix::mix_slots(parts, figures, period, n) matches Ok(slots) ==> slots.len() == slots_before(
            parts,
            period,
            n,
        ),
    decreases n,
{
    if n > 0 {
        let m = (n - 1) as nat;
        lemma_slots_taken(parts, figures, period, m);
        lemma_part_usable(parts[m as int], figures[m as int], period);
    }
}

proof fn lemma_fills_kept(
    before: Seq<SteadyStateOperation>,
    more: Seq<SteadyStateOperation>,
    from: nat,
    to: nat,
    name: Seq<char>,
)
    requires
        to <= before.len(),
        fills(before, from, to, name),
    ensures
        fills(before + more, from, to, name),
{
    assert forall|i: int| from <= i < to implies word_of(#[trigger] (before + more)[i]) == name by {
        assert((before + more)[i] == before[i]);
    }
}

proof fn lemma_fills_added(
    before: Seq<SteadyStateOperation>,
    op: SteadyStateOperation,
    count: nat,
)
    ensures
        fills(
            before + mix::repeated(op, count),
            before.len(),
            before.len() + count,
            word_of(op),
        ),
{
}

#[verifier::spinoff_prover]
proof fn lemma_slots_filled(
    parts: Seq<Seq<char>>,
    figures: Seq<MixFigure>,
    period: u32,
    n: nat,
    k: nat,
)
    requires
        k < n <= parts.len(),
        mix::mix_slots(parts, figures, period, n) is Ok,
    ensures
        ({
            let slots = mix::mix_slots(parts, figures, period, n)->Ok_0;
            &&& slots_before(parts, period, k + 1) <= slots.len()
            &&& fills(
                slots,
                slots_before(parts, period, k),
                slots_before(parts, period, k + 1),
                name_of(parts[k as int]),
            )
        }),
    decreases n,
{
    let m = (n - 1) as nat;
    let before = mix::mix_slots(parts, figures, period, m)->Ok_0;
    let (op, count) = mix::mix_part(parts[m as int], figures[m as int], period)->Ok_0;
    lemma_slots_taken(parts, figures, period, m);
    lemma_part_usable(parts[m as int], figures[m as int], period);
    if k == m {
        lemma_fills_added(before, op, count);
    } else {
        lemma_slots_filled(parts, figures, period, m, k);
        lemma_fills_kept(
            before,
            mix::repeated(op, count),
            slots_before(parts, period, k),
            slots_before(parts, period, k + 1),
            name_of(parts[k as int]),
        );
    }
}

/// A mix is accepted exactly where its period is short enough, each of its parts is of use and
/// together they fill the period; and its schedule gives each part its slots, in the order of the
/// parts.
pub proof fn lemma_mix_accepted(
    spec: Seq<char>,
    period: u32,
    figures: Seq<MixFigure>,
    sum_gap: Float64,
)
    requires
        period > 0,
    ensures
        ({
            let parts = text::split(spec, ',');
            &&& mix::mix_schedule(spec, period, figures, sum_gap) is Ok <==> {
                &&& period <= 100_000
                &&& forall|k: int|
                    0 <= k < parts.len() ==> usable(#[trigger] parts[k], figures[k], period)
                &&& slots_before(parts, period, parts.len()) == period
            }
            &&& mix::mix_schedule(spec, period, figures, sum_gap) matches Ok(slots) ==> {
                &&& slots.len() == period
                &&& forall|k: int|
                    0 <= k < parts.len() ==> fills(
                        slots,
                        slots_before(parts, period, k as nat),
                        slots_before(parts, period, (k + 1) as nat),
                        name_of(#[trigger] parts[k]),
                    )
            }
        }),
{
    let parts = text::split(spec, ',');
    lemma_slots_taken(parts, figures, period, parts.len());
    if mix::mix_slots(parts, figures, period, parts.len()) is Ok {
        assert forall|k: int| 0 <= k < parts.len() implies fills(
            mix::mix_slots(parts, figures, period, parts.len())->Ok_0,
            slots_before(parts, period, k as nat),
            slots_before(parts, period, (k + 1) as nat),
            name_of(#[trigger] parts[k]),
        ) by {
            lemma_slots_filled(parts, figures, period, parts.len(), k as nat);
        }
    }
}

/// A mix over an empty period has no slots to fill: it is accepted where its parts are of use and
/// its shares add up to one, and stands for no operation.
pub proof fn lemma_empty_mix(spec: Seq<char>, figures: Seq<MixFigure>, sum_gap: Float64)
    ensures
        ({
            let parts = text::split(spec, ',');
            mix::mix_schedule(spec, 0, figures, sum_gap) is Ok <==> {
                &&& forall|k: int|
                    0 <= k < parts.len() ==> usable(#[trigger] parts[k], figures[k], 0)
                &&& !(Float64 { bits: mix::MIX_TOLERANCE }).less(sum_gap)
            }
        }),
{
    let parts = text::split(spec, ',');
    lemma_slots_taken(parts, figures, 0, parts.len());
}

/// The number of a part is all that stands behind its first `=`.
pub proof fn lemma_part_number(name: Seq<char>, number: Seq<char>)
    requires
        text::free_of(name, '='),
    ensures
        mix::part_value(name + seq!['='] + number) == number,
        name_of(name + seq!['='] + number) == name,
{
    let part = name + seq!['='] + number;
    let k = name.len() as int;
    assert forall|i: int| 0 <= i < k implies part[i] != '=' by {
        assert(part[i] == name[i]);
    }
    text::lemma_first_index_unique(part, '=', k);
    assert(part.take(k) =~= name);
    assert(part.skip(k + 1) =~= number);
}

} // verus!
