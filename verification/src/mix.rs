//! Custom operation mixes: `name=ratio` pairs spread over a period of slots.
use crate::binary64::Float64;
use crate::decimal;
use crate::decimal::share_slots;
use crate::failure::Failure;
use crate::text;
use crate::text::{cat3, cat4, chars_of, decimal_text, index_from, same_text, split_on};
use crate::workload::SteadyStateOperation;
use vstd::prelude::*;

verus! {

/// The longest period that a custom mix may be spread over.
pub const MAX_OPERATION_MIX_PERIOD: u32 = 100_000;

/// One millionth: how far the shares of a mix may be from one in sum, where no slot shows it.
pub const MIX_TOLERANCE: u64 = 0x3EB0_C6F7_A0B5_ED8D;

/// What the number text of one mix part reads as. The reading is the caller's.
pub enum MixFigure {
    /// The ratio nearest to the number.
    Ratio { ratio: Float64 },
    /// The text is no number, for the given reason.
    Unreadable { reason: String },
}

/// What the numbers of a mix read as, in order, and how far their sum is from one. Both are the
/// caller's.
pub struct MixFigures {
    pub parts: Vec<MixFigure>,
    pub sum_gap: Float64,
}

/// The operation that a mix part names.
pub open spec fn operation_named(name: Seq<char>) -> Option<SteadyStateOperation> {
    if name == "read"@ {
        Some(SteadyStateOperation::Read)
    } else if name == "update"@ {
        Some(SteadyStateOperation::Update)
    } else if name == "create"@ {
        Some(SteadyStateOperation::Create)
    } else if name == "scan"@ {
        Some(SteadyStateOperation::Scan)
    } else {
        None
    }
}

/// The text behind the first `=` of a mix part; empty where there is none.
pub open spec fn part_value(part: Seq<char>) -> Seq<char> {
    let k = text::first_index(part, '=') as int;
    if k < part.len() {
        part.skip(k + 1)
    } else {
        Seq::empty()
    }
}

/// The operation and the slots of one mix part, or why it is refused. The slots are the number of
/// the part, as it is written, times the period: a part that takes no whole slots is refused.
pub open spec fn mix_part(part: Seq<char>, figure: MixFigure, period: u32) -> Result<
    (SteadyStateOperation, nat),
    Seq<char>,
> {
    let k = text::first_index(part, '=') as int;
    let quoted = "operation mix part `"@ + part;
    if k >= part.len() {
        Err(quoted + "` must use name=value"@)
    } else {
        match operation_named(part.take(k)) {
            None => Err("unsupported operation `"@ + part.take(k) + "` in operation mix"@),
            Some(op) => match figure {
                MixFigure::Unreadable { reason } => Err(reason@),
                MixFigure::Ratio { ratio } => if !ratio.is_finite_spec() || ratio.less_or_equal(
                    Float64::zero_spec(),
                ) {
                    Err(quoted + "` must be a positive finite ratio"@)
                } else {
                    match decimal::exact_slots(part_value(part), period) {
                        None => Err(
                            quoted + "` cannot be represented exactly by period "@
                                + text::decimal(period as nat),
                        ),
                        Some(slots) => Ok((op, slots)),
                    }
                },
            },
        }
    }
}

/// `n` times the same operation.
pub open spec fn repeated(op: SteadyStateOperation, n: nat) -> Seq<SteadyStateOperation> {
    Seq::new(n, |i: int| op)
}

/// The slots of the first `n` parts, one part after the other, or the first refusal.
pub open spec fn mix_slots(
    parts: Seq<Seq<char>>,
    figures: Seq<MixFigure>,
    period: u32,
    n: nat,
) -> Result<Seq<SteadyStateOperation>, Seq<char>>
    decreases n,
{
    if n == 0 {
        Ok(Seq::empty())
    } else {
        match mix_slots(parts, figures, period, (n - 1) as nat) {
            Err(e) => Err(e),
            Ok(slots) => match mix_part(parts[n - 1], figures[n - 1], period) {
                Err(e) => Err(e),
                Ok((op, count)) => Ok(slots + repeated(op, count)),
            },
        }
    }
}

/// Whether the shares of a mix do not add up to one. They do where their slots fill the period; an
/// empty period has no slots to tell by, and there their sum counts.
pub open spec fn misses_one(slots: nat, period: u32, sum_gap: Float64) -> bool {
    if period == 0 {
        (Float64 { bits: MIX_TOLERANCE }).less(sum_gap)
    } else {
        slots != period
    }
}

/// The schedule that a mix stands for, or why it is refused.
pub open spec fn mix_schedule(
    spec: Seq<char>,
    period: u32,
    figures: Seq<MixFigure>,
    sum_gap: Float64,
) -> Result<Seq<SteadyStateOperation>, Seq<char>> {
    let parts = text::split(spec, ',');
    if period > MAX_OPERATION_MIX_PERIOD {
        Err("operation mix period cannot exceed "@ + text::decimal(MAX_OPERATION_MIX_PERIOD as nat))
    } else {
        match mix_slots(parts, figures, period, parts.len()) {
            Err(e) => Err(e),
            Ok(slots) => if misses_one(slots.len(), period, sum_gap) {
                Err("operation mix must sum to 1.0"@)
            } else {
                Ok(slots)
            },
        }
    }
}

proof fn lemma_mix_slots_refused(
    parts: Seq<Seq<char>>,
    figures: Seq<MixFigure>,
    period: u32,
    k: nat,
    n: nat,
)
    requires
        k <= n,
        mix_slots(parts, figures, period, k) is Err,
    ensures
        mix_slots(parts, figures, period, n) == mix_slots(parts, figures, period, k),
    decreases n,
{
    if k < n {
        lemma_mix_slots_refused(parts, figures, period, k, (n - 1) as nat);
    }
}

/// The parts of a mix take no slots of an empty period.
proof fn lemma_empty_schedule(parts: Seq<Seq<char>>, figures: Seq<MixFigure>, n: nat)
    ensures
        mix_slots(parts, figures, 0, n) matches Ok(slots) ==> slots.len() == 0,
    decreases n,
{
    if n > 0 {
        lemma_empty_schedule(parts, figures, (n - 1) as nat);
        decimal::lemma_empty_period(part_value(parts[n - 1]));
    }
}

/// Whether the number of a part reads as a positive finite ratio.
pub open spec fn is_share(figure: MixFigure) -> bool {
    figure matches MixFigure::Ratio { ratio } && ratio.is_finite_spec() && !ratio.less_or_equal(
        Float64::zero_spec(),
    )
}

proof fn lemma_part(
    name: Seq<char>,
    value: Seq<char>,
    op: SteadyStateOperation,
    figure: MixFigure,
    period: u32,
    slots: nat,
)
    requires
        text::free_of(name, '='),
        operation_named(name) == Some(op),
        is_share(figure),
        decimal::exact_slots(value, period) == Some(slots),
    ensures
        mix_part(name + seq!['='] + value, figure, period) == Ok::<
            (SteadyStateOperation, nat),
            Seq<char>,
        >((op, slots)),
{
    let part = name + seq!['='] + value;
    let k = name.len() as int;
    assert forall|i: int| 0 <= i < k implies part[i] != '=' by {
        assert(part[i] == name[i]);
    }
    text::lemma_first_index_unique(part, '=', k);
    assert(part.take(k) =~= name);
    assert(part.skip(k + 1) =~= value);
}

/// A mix of one operation with the share of one takes the whole period.
pub proof fn lemma_one_part(
    spec: Seq<char>,
    name: Seq<char>,
    value: Seq<char>,
    op: SteadyStateOperation,
    period: u32,
    figures: Seq<MixFigure>,
    sum_gap: Float64,
)
    requires
        0 < period <= MAX_OPERATION_MIX_PERIOD,
        spec == name + seq!['='] + value,
        text::free_of(name, '='),
        text::free_of(spec, ','),
        operation_named(name) == Some(op),
        figures.len() == 1,
        is_share(figures[0]),
        decimal::exact_slots(value, period) == Some(period as nat),
    ensures
        mix_schedule(spec, period, figures, sum_gap) == Ok::<Seq<SteadyStateOperation>, Seq<char>>(
            repeated(op, period as nat),
        ),
{
    text::lemma_first_index_unique(spec, ',', spec.len() as int);
    let parts = text::split(spec, ',');
    assert(parts =~= seq![spec]);
    lemma_part(name, value, op, figures[0], period, period as nat);
    reveal_with_fuel(mix_slots, 2);
    assert(Seq::<SteadyStateOperation>::empty() + repeated(op, period as nat) =~= repeated(
        op,
        period as nat,
    ));
}

/// A mix of reads and updates whose shares add up reads first and updates after that.
pub proof fn lemma_two_parts(
    spec: Seq<char>,
    first: Seq<char>,
    second: Seq<char>,
    reads: nat,
    updates: nat,
    period: u32,
    figures: Seq<MixFigure>,
    sum_gap: Float64,
)
    requires
        0 < period <= MAX_OPERATION_MIX_PERIOD,
        spec == text::join(
            seq!["read"@ + seq!['='] + first, "update"@ + seq!['='] + second],
            seq![','],
        ),
        text::free_of(first, ','),
        text::free_of(second, ','),
        figures.len() == 2,
        is_share(figures[0]),
        is_share(figures[1]),
        decimal::exact_slots(first, period) == Some(reads),
        decimal::exact_slots(second, period) == Some(updates),
        reads + updates == period,
    ensures
        mix_schedule(spec, period, figures, sum_gap) == Ok::<Seq<SteadyStateOperation>, Seq<char>>(
            repeated(SteadyStateOperation::Read, reads) + repeated(
                SteadyStateOperation::Update,
                updates,
            ),
        ),
{
    reveal_strlit("read");
    reveal_strlit("update");
    let a = "read"@ + seq!['='] + first;
    let b = "update"@ + seq!['='] + second;
    let parts = seq![a, b];
    assert forall|i: int| 0 <= i < a.len() implies #[trigger] a[i] != ',' by {
        if i >= 5 {
            assert(a[i] == first[i - 5]);
        }
    }
    assert forall|i: int| 0 <= i < b.len() implies #[trigger] b[i] != ',' by {
        if i >= 7 {
            assert(b[i] == second[i - 7]);
        }
    }
    text::lemma_split_join(parts, ',');
    assert("read"@ != "update"@) by {
        assert("read"@.len() != "update"@.len());
    }
    lemma_part("read"@, first, SteadyStateOperation::Read, figures[0], period, reads);
    lemma_part("update"@, second, SteadyStateOperation::Update, figures[1], period, updates);
    reveal_with_fuel(mix_slots, 3);
    assert(Seq::<SteadyStateOperation>::empty() + repeated(SteadyStateOperation::Read, reads)
        =~= repeated(SteadyStateOperation::Read, reads));
}

/// The number texts of the parts of a mix, one per part.
pub fn operation_mix_values(spec: &str) -> (r: Vec<String>)
    ensures
        r@.len() == text::split(spec@, ',').len(),
        forall|i: int|
            0 <= i < r@.len() ==> (#[trigger] r@[i])@ == part_value(text::split(spec@, ',')[i]),
{
    let parts: Vec<String> = split_on(spec, ',');
    let mut values: Vec<String> = Vec::new();
    let mut i: usize = 0;
    while i < parts.len()
        invariant
            i <= parts@.len(),
            text::texts(parts@) == text::split(spec@, ','),
            values@.len() == i,
            forall|j: int|
                0 <= j < i ==> (#[trigger] values@[j])@ == part_value(text::split(spec@, ',')[j]),
        decreases parts@.len() - i,
    {
        let part: &str = parts[i].as_str();
        assert(part@ == text::texts(parts@)[i as int]);
        let chars: Vec<char> = chars_of(part);
        let k: usize = index_from(&chars, '=', 0);
        assert(part@.skip(0) =~= part@);
        let value: String = if k < chars.len() {
            let v: &str = part.substring_char(k + 1, chars.len());
            assert(v@ =~= part@.skip(k + 1));
            v.to_owned()
        } else {
            String::new()
        };
        values.push(value);
        i = i + 1;
    }
    values
}

/// Reads one mix part. Its slots come out as at most one more than the period.
fn read_part(part: &str, figure: &MixFigure, period: u32) -> (r: Result<
    (SteadyStateOperation, u32),
    Failure,
>)
    requires
        period <= MAX_OPERATION_MIX_PERIOD,
    ensures
        match (r, mix_part(part@, *figure, period)) {
            (Ok((op, n)), Ok((want, m))) => op == want && Some(n as nat) == decimal::capped(
                Some(m),
                period,
            ),
            (Err(e), Err(want)) => e@ == want,
            _ => false,
        },
{
    let chars: Vec<char> = chars_of(part);
    let k: usize = index_from(&chars, '=', 0);
    assert(part@.skip(0) =~= part@);
    if k >= chars.len() {
        return Err(Failure::new(cat3("operation mix part `", part, "` must use name=value")));
    }
    let name: &str = part.substring_char(0, k);
    assert(name@ =~= part@.take(k as int));
    let op: SteadyStateOperation = if same_text(name, "read") {
        SteadyStateOperation::Read
    } else if same_text(name, "update") {
        SteadyStateOperation::Update
    } else if same_text(name, "create") {
        SteadyStateOperation::Create
    } else if same_text(name, "scan") {
        SteadyStateOperation::Scan
    } else {
        return Err(
            Failure::new(cat3("unsupported operation `", name, "` in operation mix")),
        );
    };
    match figure {
        MixFigure::Unreadable { reason } => Err(Failure::new(reason.clone())),
        MixFigure::Ratio { ratio } => {
            if !ratio.is_finite() || ratio.le(Float64::zero()) {
                return Err(
                    Failure::new(
                        cat3("operation mix part `", part, "` must be a positive finite ratio"),
                    ),
                );
            }
            let value: &str = part.substring_char(k + 1, chars.len());
            assert(value@ =~= part_value(part@));
            match share_slots(value, period) {
                None => Err(
                    Failure::new(
                        cat4(
                            "operation mix part `",
                            part,
                            "` cannot be represented exactly by period ",
                            decimal_text(period as u128).as_str(),
                        ),
                    ),
                ),
                Some(slots) => Ok((op, slots)),
            }
        },
    }
}

/// The slots that `runs` stands for.
spec fn expand(runs: Seq<(SteadyStateOperation, u32)>) -> Seq<SteadyStateOperation>
    decreases runs.len(),
{
    if runs.len() == 0 {
        Seq::empty()
    } else {
        expand(runs.drop_last()) + repeated(runs.last().0, runs.last().1 as nat)
    }
}

/// Spreads a custom mix over a period of slots, each operation in one run.
///
/// `mix` holds what the number of each part reads as, in order, and how far their sum is from one.
pub fn parse_operation_mix(spec: &str, period: u32, mix: &MixFigures) -> (r: Result<
    Vec<SteadyStateOperation>,
    Failure,
>)
    requires
        mix.parts@.len() == text::split(spec@, ',').len(),
    ensures
        match (r, mix_schedule(spec@, period, mix.parts@, mix.sum_gap)) {
            (Ok(schedule), Ok(want)) => schedule@ == want && schedule@.len() == period,
            (Err(e), Err(want)) => e@ == want,
            _ => false,
        },
{
    if period > MAX_OPERATION_MIX_PERIOD {
        let max: String = decimal_text(MAX_OPERATION_MIX_PERIOD as u128);
        return Err(Failure::new(text::cat2("operation mix period cannot exceed ", max.as_str())));
    }
    let figures: &Vec<MixFigure> = &mix.parts;
    let parts: Vec<String> = split_on(spec, ',');
    let ghost texts = text::texts(parts@);
    let mut runs: Vec<(SteadyStateOperation, u32)> = Vec::new();
    let mut total: u32 = 0;
    let mut i: usize = 0;
    while i < parts.len()
        invariant
            i <= parts@.len(),
            parts@.len() == figures@.len(),
            figures@ == mix.parts@,
            texts == text::texts(parts@),
            texts == text::split(spec@, ','),
            period <= MAX_OPERATION_MIX_PERIOD,
            mix_slots(texts, figures@, period, i as nat) is Ok,
            Some(total as nat) == decimal::capped(
                Some(slots_so_far(texts, figures@, period, i as nat).len()),
                period,
            ),
            total <= period ==> slots_so_far(texts, figures@, period, i as nat) == expand(runs@),
        decreases parts@.len() - i,
    {
        assert(texts[i as int] == parts@[i as int]@);
        match read_part(parts[i].as_str(), &figures[i], period) {
            Err(e) => {
                proof {
                    lemma_mix_slots_refused(
                        texts,
                        figures@,
                        period,
                        (i + 1) as nat,
                        texts.len(),
                    );
                }
                return Err(e);
            },
            Ok((op, count)) => {
                if total <= period && total + count <= period {
                    let ghost before = runs@;
                    runs.push((op, count));
                    assert(runs@.drop_last() =~= before);
                    total = total + count;
                } else {
                    total = period + 1;
                }
            },
        }
        i = i + 1;
    }
    proof {
        if period == 0 {
            lemma_empty_schedule(texts, figures@, texts.len());
        }
    }
    let missed: bool = if period == 0 {
        Float64::from_bits(MIX_TOLERANCE).lt(mix.sum_gap)
    } else {
        total != period
    };
    if missed {
        return Err(Failure::new("operation mix must sum to 1.0".to_owned()));
    }
    Ok(schedule_of(&runs))
}

/// The slots of the first `n` parts, where none of them is refused.
spec fn slots_so_far(
    parts: Seq<Seq<char>>,
    figures: Seq<MixFigure>,
    period: u32,
    n: nat,
) -> Seq<SteadyStateOperation> {
    match mix_slots(parts, figures, period, n) {
        Ok(slots) => slots,
        Err(e) => Seq::empty(),
    }
}

/// Writes the runs out slot by slot.
fn schedule_of(runs: &Vec<(SteadyStateOperation, u32)>) -> (r: Vec<SteadyStateOperation>)
    ensures
        r@ == expand(runs@),
{
    let mut schedule: Vec<SteadyStateOperation> = Vec::new();
    let mut i: usize = 0;
    assert(expand(runs@.take(0)) =~= Seq::empty());
    while i < runs.len()
        invariant
            i <= runs@.len(),
            schedule@ == expand(runs@.take(i as int)),
        decreases runs@.len() - i,
    {
        let (op, count): (SteadyStateOperation, u32) = runs[i];
        let ghost before = schedule@;
        let mut k: u32 = 0;
        assert(before + repeated(op, 0) =~= before);
        while k < count
            invariant
                k <= count,
                schedule@ == before + repeated(op, k as nat),
            decreases count - k,
        {
            schedule.push(op);
            assert(schedule@ =~= before + repeated(op, (k + 1) as nat));
            k = k + 1;
        }
        assert(runs@.take(i + 1).drop_last() =~= runs@.take(i as int));
        i = i + 1;
    }
    assert(runs@.take(runs@.len() as int) =~= runs@);
    schedule
}

} // verus!
