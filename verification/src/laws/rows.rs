//! Which rows a configuration runs, and what they do.
use crate::config;
use crate::config::SteadyStateConfig;
use crate::decimal;
use crate::mix;
use crate::mix::MixFigures;
use crate::settings::{Benchmark, SteadyStatePreset};
use crate::text;
use crate::workload;
use crate::workload::{SteadyStateCounts, SteadyStateOperation, SteadyStateWorkload};
use vstd::prelude::*;

verus! {

/// The presets: a smoke run does not warm up, measures for a second and samples every operation; a
/// default run warms up for half a minute, measures for two and samples every hundredth; a large run
/// takes one minute and five.
pub proof fn lemma_presets(preset: SteadyStatePreset)
    ensures
        ({
            let (warmup_secs, measurement_secs, every) = config::preset_scale(preset);
            match preset {
                SteadyStatePreset::Smoke => warmup_secs == 0 && measurement_secs == 1 && every == 1,
                SteadyStatePreset::Default => warmup_secs == 30 && measurement_secs == 120 && every
                    == 100,
                SteadyStatePreset::Large => warmup_secs == 60 && measurement_secs == 300 && every
                    == 100,
            }
        }),
        forall|given: u64, fallback: u64| #[trigger]
            config::or_else_value(Some(given), fallback) == given,
        forall|fallback: u64| #[trigger] config::or_else_value(None, fallback) == fallback,
{
}

/// Whether a row can perform an operation of a custom schedule.
pub open spec fn can_perform(w: SteadyStateWorkload, op: SteadyStateOperation) -> bool {
    match op {
        SteadyStateOperation::Create => w == SteadyStateWorkload::SustainedIngest,
        SteadyStateOperation::Scan => w == SteadyStateWorkload::RangeScanUniform,
        SteadyStateOperation::Read => w != SteadyStateWorkload::SustainedIngest && w
            != SteadyStateWorkload::RangeScanUniform && w != SteadyStateWorkload::Idle,
        SteadyStateOperation::Update => w != SteadyStateWorkload::SustainedIngest && w
            != SteadyStateWorkload::RangeScanUniform && w != SteadyStateWorkload::Idle && w
            != SteadyStateWorkload::PointReadMissingInRange,
    }
}

proof fn lemma_no_misfit(
    list: Seq<SteadyStateWorkload>,
    schedule: Seq<SteadyStateOperation>,
    n: nat,
)
    requires
        n <= list.len(),
    ensures
        match config::first_misfit(list, schedule, n) {
            None => forall|i: int| 0 <= i < n ==> (#[trigger] list[i]).compatible(schedule),
            Some(w) => exists|i: int|
                {
                    &&& 0 <= i < n
                    &&& (#[trigger] list[i]) == w
                    &&& !w.compatible(schedule)
                    &&& forall|j: int| 0 <= j < i ==> (#[trigger] list[j]).compatible(schedule)
                },
        },
    decreases n,
{
    if n > 0 {
        lemma_no_misfit(list, schedule, (n - 1) as nat);
    }
}

/// Selected rows run without a custom schedule exactly where the period gives their mixes whole
/// slots: an even one for the balanced row, a multiple of 20 for the read-heavy and update-heavy
/// rows.
pub proof fn lemma_rows_accepted_builtin(c: SteadyStateConfig, list: Seq<SteadyStateWorkload>)
    requires
        c.operation_schedule is None,
    ensures
        c.row_refusal(list) is None <==> {
            &&& list.contains(SteadyStateWorkload::BalancedZipfian) ==> c.operation_mix_period % 2
                == 0
            &&& list.contains(SteadyStateWorkload::ReadHeavyZipfian) ==> c.operation_mix_period % 20
                == 0
            &&& list.contains(SteadyStateWorkload::UpdateHeavyZipfian) ==> c.operation_mix_period
                % 20 == 0
        },
{
}

/// Selected rows run under a custom schedule exactly where each of them can perform each of its
/// operations; the idle row performs none and never runs under one.
pub proof fn lemma_rows_accepted_custom(c: SteadyStateConfig, list: Seq<SteadyStateWorkload>)
    requires
        c.operation_schedule is Some,
    ensures
        c.row_refusal(list) is None <==> forall|i: int|
            0 <= i < list.len() ==> (#[trigger] list[i]) != SteadyStateWorkload::Idle && forall|
                j: int,
            |
                0 <= j < c.schedule()->0.len() ==> can_perform(
                    list[i],
                    #[trigger] c.schedule()->0[j],
                ),
{
    let s = c.schedule()->0;
    lemma_no_misfit(list, s, list.len());
    assert forall|w: SteadyStateWorkload, op: SteadyStateOperation|
        #![trigger w.admits(op)]
        w.admits(op) <==> can_perform(w, op) by {}
    if c.row_refusal(list) is None {
        assert forall|i: int| 0 <= i < list.len() implies (#[trigger] list[i])
            != SteadyStateWorkload::Idle && forall|j: int|
            0 <= j < s.len() ==> can_perform(list[i], #[trigger] s[j]) by {
            assert(list[i].compatible(s));
            assert forall|j: int| 0 <= j < s.len() implies can_perform(list[i], #[trigger] s[j]) by {
                assert(list[i].admits(s[j]));
            }
        }
    } else if forall|i: int|
        0 <= i < list.len() ==> (#[trigger] list[i]) != SteadyStateWorkload::Idle && forall|j: int|
            0 <= j < s.len() ==> can_perform(list[i], #[trigger] s[j]) {
        if config::first_misfit(list, s, list.len()) is Some {
            let w = config::first_misfit(list, s, list.len())->0;
            let i = choose|i: int|
                {
                    &&& 0 <= i < list.len()
                    &&& (#[trigger] list[i]) == w
                    &&& !w.compatible(s)
                    &&& forall|j: int| 0 <= j < i ==> (#[trigger] list[j]).compatible(s)
                };
            assert forall|j: int| 0 <= j < s.len() implies list[i].admits(#[trigger] s[j]) by {
                assert(can_perform(list[i], s[j]));
            }
            assert(false);
        } else {
            assert(s.contains(SteadyStateOperation::Create));
            let j = choose|j: int| 0 <= j < s.len() && s[j] == SteadyStateOperation::Create;
            let i = choose|i: int|
                0 <= i < list.len() && #[trigger] list[i] != SteadyStateWorkload::SustainedIngest;
            assert(can_perform(list[i], s[j]));
            assert(false);
        }
    }
}

/// The names of a row list: its pieces, trimmed, without the blank ones.
pub open spec fn listed_names(pieces: Seq<Seq<char>>, n: nat) -> Seq<Seq<char>>
    decreases n,
{
    if n == 0 {
        Seq::empty()
    } else if text::trim(pieces[n - 1]).len() == 0 {
        listed_names(pieces, (n - 1) as nat)
    } else {
        listed_names(pieces, (n - 1) as nat).push(text::trim(pieces[n - 1]))
    }
}

/// A row list selects the rows of its names in their order, and is refused where one of them is the
/// name of no row: with the first such name.
pub proof fn lemma_listed_rows(pieces: Seq<Seq<char>>, n: nat)
    requires
        n <= pieces.len(),
    ensures
        match config::workloads_listed(pieces, n) {
            Ok(list) => {
                let names = listed_names(pieces, n);
                &&& list.len() == names.len()
                &&& forall|i: int|
                    0 <= i < list.len() ==> (#[trigger] list[i]).name_text() == names[i]
            },
            Err(e) => exists|k: int|
                {
                    let name = text::trim(#[trigger] pieces[k]);
                    &&& 0 <= k < n
                    &&& name.len() > 0
                    &&& forall|w: SteadyStateWorkload| name != #[trigger] w.name_text()
                    &&& e == "unsupported steady-state workload `"@ + name + "`"@
                    &&& forall|j: int|
                        0 <= j < k ==> text::trim(#[trigger] pieces[j]).len() == 0 || exists|
                            w: SteadyStateWorkload,
                        |
                            text::trim(pieces[j]) == #[trigger] w.name_text()
                },
        },
    decreases n,
{
    if n > 0 {
        lemma_listed_rows(pieces, (n - 1) as nat);
        if config::workloads_listed(pieces, (n - 1) as nat) is Ok {
            lemma_known_before(pieces, (n - 1) as nat);
        }
        let name = text::trim(pieces[n - 1]);
        if config::workloads_listed(pieces, (n - 1) as nat) is Ok && name.len() > 0 {
            match workload::workload_named(name) {
                Some(w) => {
                    workload::lemma_names_round_trip(w, name);
                },
                None => {
                    assert forall|w: SteadyStateWorkload| name != #[trigger] w.name_text() by {
                        workload::lemma_names_round_trip(w, name);
                    }
                    assert(text::trim(pieces[n - 1]) == name);
                },
            }
        }
    }
}

proof fn lemma_known_before(pieces: Seq<Seq<char>>, n: nat)
    requires
        n <= pieces.len(),
        config::workloads_listed(pieces, n) is Ok,
    ensures
        forall|j: int|
            0 <= j < n ==> text::trim(#[trigger] pieces[j]).len() == 0 || exists|
                w: SteadyStateWorkload,
            |
                text::trim(pieces[j]) == #[trigger] w.name_text(),
    decreases n,
{
    if n > 0 {
        lemma_known_before(pieces, (n - 1) as nat);
        let name = text::trim(pieces[n - 1]);
        if name.len() > 0 {
            let w = workload::workload_named(name)->0;
            workload::lemma_names_round_trip(w, name);
            assert(name == w.name_text());
        }
    }
}

/// Where no rows are named, every row but the idle one runs, once.
pub proof fn lemma_default_rows(w: SteadyStateWorkload)
    ensures
        workload::default_workloads_spec().contains(w) <==> w != SteadyStateWorkload::Idle,
        workload::default_workloads_spec().no_duplicates(),
        workload::default_workloads_spec().len() == 8,
{
    let d = workload::default_workloads_spec();
    match w {
        SteadyStateWorkload::BalancedZipfian => assert(d[0] == w),
        SteadyStateWorkload::ReadHeavyZipfian => assert(d[1] == w),
        SteadyStateWorkload::UpdateHeavyZipfian => assert(d[2] == w),
        SteadyStateWorkload::PointReadZipfian => assert(d[3] == w),
        SteadyStateWorkload::PointReadUniform => assert(d[4] == w),
        SteadyStateWorkload::PointReadMissingInRange => assert(d[5] == w),
        SteadyStateWorkload::RangeScanUniform => assert(d[6] == w),
        SteadyStateWorkload::SustainedIngest => assert(d[7] == w),
        SteadyStateWorkload::Idle => {},
    }
}

/// A custom schedule is performed slot by slot, and from the start again at its end.
pub proof fn lemma_custom_order(c: SteadyStateConfig, w: SteadyStateWorkload, i: nat)
    requires
        c.operation_schedule is Some,
        c.operation_schedule->0@.len() > 0,
    ensures
        i < c.operation_schedule->0@.len() ==> c.operation(w, i)
            == c.operation_schedule->0@[i as int],
        c.operation(w, i + c.operation_schedule->0@.len()) == c.operation(w, i),
{
    let n = c.operation_schedule->0@.len() as int;
    vstd::arithmetic::div_mod::lemma_mod_add_multiples_vanish(i as int, n);
    if i < n {
        vstd::arithmetic::div_mod::lemma_small_mod(i, n as nat);
    }
}

/// What a row performs where no schedule is given: reads and updates in the mixed rows, and the one
/// operation that its name says in any other.
pub proof fn lemma_builtin_order(c: SteadyStateConfig, w: SteadyStateWorkload, i: nat)
    requires
        c.operation_schedule is None,
        w != SteadyStateWorkload::Idle,
    ensures
        c.operation(w, i) is Create <==> w == SteadyStateWorkload::SustainedIngest,
        c.operation(w, i) is Scan <==> w == SteadyStateWorkload::RangeScanUniform,
        c.operation(w, i) is Update ==> w == SteadyStateWorkload::BalancedZipfian || w
            == SteadyStateWorkload::ReadHeavyZipfian || w
            == SteadyStateWorkload::UpdateHeavyZipfian,
{
}

/// The kinds and the counts of a mix, in the order in which they are reported: creates, reads,
/// updates, scans, without those that never occurred.
pub open spec fn reported(creates: nat, reads: nat, updates: nat, scans: nat) -> Seq<
    (Seq<char>, nat),
> {
    kept("create"@, creates) + kept("read"@, reads) + kept("update"@, updates) + kept(
        "scan"@,
        scans,
    )
}

pub open spec fn kept(kind: Seq<char>, n: nat) -> Seq<(Seq<char>, nat)> {
    if n == 0 {
        Seq::empty()
    } else {
        seq![(kind, n)]
    }
}

proof fn lemma_labels()
    ensures
        "create="@ == "create"@ + "="@,
        "read="@ == "read"@ + "="@,
        "update="@ == "update"@ + "="@,
        "scan="@ == "scan"@ + "="@,
{
    reveal_strlit("create=");
    reveal_strlit("create");
    reveal_strlit("read=");
    reveal_strlit("read");
    reveal_strlit("update=");
    reveal_strlit("update");
    reveal_strlit("scan=");
    reveal_strlit("scan");
    reveal_strlit("=");
    assert("create="@ =~= "create"@ + "="@);
    assert("read="@ =~= "read"@ + "="@);
    assert("update="@ =~= "update"@ + "="@);
    assert("scan="@ =~= "scan"@ + "="@);
}

/// A mix of counts lists each kind that occurred with its count, joined by commas; an observed mix
/// lists each with its share of all of them.
pub proof fn lemma_mix_lists_kinds(creates: nat, reads: nat, updates: nat, scans: nat)
    ensures
        ({
            let pairs = reported(creates, reads, updates, scans);
            let total = creates + reads + updates + scans;
            &&& workload::mix_text(creates, reads, updates, scans) == text::join(
                Seq::new(pairs.len(), |i: int| pairs[i].0 + "="@ + text::decimal(pairs[i].1)),
                ","@,
            )
            &&& workload::shares_text(creates, reads, updates, scans) == text::join(
                Seq::new(
                    pairs.len(),
                    |i: int| pairs[i].0 + "="@ + workload::share_text(pairs[i].1, total),
                ),
                ","@,
            )
        }),
{
    lemma_labels();
    let pairs = reported(creates, reads, updates, scans);
    let total = creates + reads + updates + scans;
    assert(workload::mix_pairs(creates, reads, updates, scans) =~= Seq::new(
        pairs.len(),
        |i: int| pairs[i].0 + "="@ + text::decimal(pairs[i].1),
    ));
    assert(workload::share_pairs(creates, reads, updates, scans) =~= Seq::new(
        pairs.len(),
        |i: int| pairs[i].0 + "="@ + workload::share_text(pairs[i].1, total),
    ));
}

/// A share is reported in millionths, rounded to the nearest.
pub proof fn lemma_share_rounded(n: nat, total: nat)
    requires
        total > 0,
    ensures
        exists|millionths: nat|
            {
                &&& workload::share_text(n, total) == #[trigger] text::decimal(
                    millionths / 1_000_000,
                ) + "."@ + workload::padded(millionths % 1_000_000, 6)
                &&& 2 * (millionths * total - n * 1_000_000) <= total
                &&& 2 * (n * 1_000_000 - millionths * total) <= total
            },
{
    let x = n * 1_000_000;
    let m = crate::binary64::nearest_even(x, total);
    vstd::arithmetic::div_mod::lemma_fundamental_div_mod(x as int, total as int);
    vstd::arithmetic::div_mod::lemma_mod_bound(x as int, total as int);
    let q = x as int / total as int;
    let r = x as int % total as int;
    vstd::arithmetic::mul::lemma_mul_is_commutative(q, total as int);
    vstd::arithmetic::mul::lemma_mul_is_distributive_add_other_way(total as int, q, 1);
    assert(m == q || m == q + 1);
    assert(workload::share_text(n, total) == text::decimal(m / 1_000_000) + "."@ + workload::padded(
        m % 1_000_000,
        6,
    ));
}

/// Each kind of operation has its own count.
pub proof fn lemma_counts_by_kind(c: SteadyStateCounts, op: SteadyStateOperation, n: u64)
    ensures
        c.of(SteadyStateOperation::Create) == c.creates,
        c.of(SteadyStateOperation::Read) == c.reads,
        c.of(SteadyStateOperation::Update) == c.updates,
        c.of(SteadyStateOperation::Scan) == c.scans,
        forall|other: SteadyStateOperation| #[trigger]
            c.with(op, n).of(other) == if other == op {
                n
            } else {
                c.of(other)
            },
{
}

/// A configuration without a row list selects the default rows, any other the rows of its list.
pub proof fn lemma_selected_rows(c: SteadyStateConfig)
    ensures
        c.bench_spec is None ==> c.selected() == Ok::<Seq<SteadyStateWorkload>, Seq<char>>(
            workload::default_workloads_spec(),
        ),
        c.bench_spec matches Some(spec) ==> {
            let pieces = text::split(spec@, ',');
            c.selected() == config::workloads_listed(pieces, pieces.len())
        },
{
}

/// A benchmark has a steady-state configuration exactly where its period has slots and its custom
/// mix, where it has one, stands for a schedule; it is refused as the mix is.
pub proof fn lemma_configured(b: Benchmark, figures: MixFigures)
    ensures
        b.operation_mix_period == 0 ==> config::config_refusal(b, figures) == Some(
            "--operation-mix-period must be greater than 0"@,
        ),
        b.operation_mix_period > 0 && b.operation_mix is None ==> config::config_refusal(b, figures)
            is None,
        b.operation_mix_period > 0 && b.operation_mix is Some ==> match mix::mix_schedule(
            b.operation_mix->0@,
            b.operation_mix_period,
            figures.parts@,
            figures.sum_gap,
        ) {
            Ok(_) => config::config_refusal(b, figures) is None,
            Err(e) => config::config_refusal(b, figures) == Some(e),
        },
{
}

/// The order of a row repeats after its schedule, or after the period where it has none.
pub proof fn lemma_row_period(c: SteadyStateConfig)
    ensures
        c.operation_schedule matches Some(s) ==> c.period() == s@.len() && c.schedule() == Some(s@),
        c.operation_schedule is None ==> c.period() == c.operation_mix_period && c.schedule()
            is None,
{
}

/// Why rows are refused, in this order: without a schedule a period that does not fit the balanced
/// row, then one that does not fit the others; with one, creates outside of the ingest row, then the
/// first row that the schedule does not fit.
pub proof fn lemma_refusals_say(c: SteadyStateConfig, list: Seq<SteadyStateWorkload>)
    ensures
        c.operation_schedule is None && list.contains(SteadyStateWorkload::BalancedZipfian)
            && c.operation_mix_period % 2 != 0 ==> c.row_refusal(list) == Some(
            "balanced_zipfian requires an even --operation-mix-period for exact read=0.5,update=0.5"@,
        ),
        c.operation_schedule is None && !list.contains(SteadyStateWorkload::BalancedZipfian)
            && c.row_refusal(list) is Some ==> c.row_refusal(list) == Some(
            "read_heavy_zipfian and update_heavy_zipfian require --operation-mix-period to be a multiple of 20 for exact 95/5 mixes"@,
        ),
        c.operation_schedule matches Some(s) ==> {
            &&& s@.contains(SteadyStateOperation::Create) && (exists|i: int|
                0 <= i < list.len() && #[trigger] list[i] != SteadyStateWorkload::SustainedIngest)
                ==> c.row_refusal(list) == Some(
                "custom steady-state operation mixes may include create only for sustained_ingest"@,
            )
            &&& !s@.contains(SteadyStateOperation::Create) && c.row_refusal(list) is Some
                ==> exists|i: int|
                {
                    &&& 0 <= i < list.len()
                    &&& !(#[trigger] list[i]).compatible(s@)
                    &&& forall|j: int| 0 <= j < i ==> (#[trigger] list[j]).compatible(s@)
                    &&& c.row_refusal(list) == Some(
                        "custom steady-state operation mix is incompatible with "@
                            + list[i].name_text() + " key-selection contract"@,
                    )
                }
        },
{
    if let Some(s) = c.operation_schedule {
        lemma_no_misfit(list, s@, list.len());
    }
}

/// The decimals of a share are its last digits, with the zeros before them.
pub proof fn lemma_padded_digits(n: nat, width: nat)
    ensures
        workload::padded(n, width).len() == width,
        decimal::all_digits(workload::padded(n, width)),
        decimal::number(workload::padded(n, width)) == n % decimal::pow10(width),
    decreases width,
{
    if width > 0 {
        lemma_padded_digits(n / 10, (width - 1) as nat);
        let front = workload::padded(n / 10, (width - 1) as nat);
        let last = text::digit(n % 10);
        let all = workload::padded(n, width);
        assert(all.drop_last() =~= front);
        assert(decimal::is_digit(last) && last as u32 - 48 == n % 10);
        assert forall|i: int| 0 <= i < all.len() implies decimal::is_digit(#[trigger] all[i]) by {
            if i < front.len() {
                assert(all[i] == front[i]);
            }
        }
        lemma_power_positive((width - 1) as nat);
        vstd::arithmetic::div_mod::lemma_mod_breakdown(
            n as int,
            10,
            decimal::pow10((width - 1) as nat) as int,
        );
    }
}

proof fn lemma_power_positive(n: nat)
    ensures
        decimal::pow10(n) > 0,
    decreases n,
{
    if n > 0 {
        lemma_power_positive((n - 1) as nat);
    }
}

} // verus!
