//! The steady-state configuration: which rows run and which operation comes when.
use crate::binary64::Float64;
use crate::decimal;
use crate::failure::Failure;
use crate::mix;
use crate::mix::{parse_operation_mix, MixFigure, MixFigures};
use crate::settings::{Benchmark, SteadyStatePreset};
use crate::text;
use crate::text::{split_on, trimmed};
use crate::workload;
use crate::workload::{
    default_workloads, SteadyStateCounts, SteadyStateOperation, SteadyStateWorkload,
};
use vstd::arithmetic::div_mod::*;
use vstd::prelude::*;

verus! {

/// What a steady-state run does: its dataset, its windows, its seed and its rows.
#[derive(Clone, Debug)]
pub struct SteadyStateConfig {
    pub records: u32,
    pub warmup_secs: u64,
    pub measurement_secs: u64,
    pub latency_sample_every: u64,
    pub seed: u64,
    pub zipfian_exponent: Float64,
    pub bench_spec: Option<String>,
    pub operation_mix: Option<String>,
    pub operation_schedule: Option<Vec<SteadyStateOperation>>,
    pub operation_mix_period: u32,
}

/// Warmup seconds, measurement seconds and latency sampling of a preset.
pub open spec fn preset_scale(preset: SteadyStatePreset) -> (u64, u64, u64) {
    match preset {
        SteadyStatePreset::Smoke => (0, 1, 1),
        SteadyStatePreset::Default => (30, 120, 100),
        SteadyStatePreset::Large => (60, 300, 100),
    }
}

pub open spec fn or_else_value(given: Option<u64>, fallback: u64) -> u64 {
    match given {
        Some(v) => v,
        None => fallback,
    }
}

/// Why a benchmark has no steady-state configuration, if it has none.
pub open spec fn config_refusal(b: Benchmark, figures: MixFigures) -> Option<Seq<char>> {
    if b.operation_mix_period == 0 {
        Some("--operation-mix-period must be greater than 0"@)
    } else {
        match b.operation_mix {
            None => None,
            Some(spec) => match mix::mix_schedule(
                spec@,
                b.operation_mix_period,
                figures.parts@,
                figures.sum_gap,
            ) {
                Ok(_) => None,
                Err(e) => Some(e),
            },
        }
    }
}

/// The slots of one period in which a mixed row reads.
pub open spec fn read_slots(w: SteadyStateWorkload, period: nat) -> nat {
    match w {
        SteadyStateWorkload::BalancedZipfian => period / 2,
        SteadyStateWorkload::ReadHeavyZipfian => period * 19 / 20,
        _ => period / 20,
    }
}

/// Whether the row mixes reads and updates.
pub open spec fn is_mixed(w: SteadyStateWorkload) -> bool {
    w == SteadyStateWorkload::BalancedZipfian || w == SteadyStateWorkload::ReadHeavyZipfian || w
        == SteadyStateWorkload::UpdateHeavyZipfian
}

/// The workloads that the first `n` pieces of a row list name, blank pieces left out.
pub open spec fn workloads_listed(pieces: Seq<Seq<char>>, n: nat) -> Result<
    Seq<SteadyStateWorkload>,
    Seq<char>,
>
    decreases n,
{
    if n == 0 {
        Ok(Seq::empty())
    } else {
        match workloads_listed(pieces, (n - 1) as nat) {
            Err(e) => Err(e),
            Ok(list) => {
                let name = text::trim(pieces[n - 1]);
                if name.len() == 0 {
                    Ok(list)
                } else {
                    match workload::workload_named(name) {
                        Some(w) => Ok(list.push(w)),
                        None => Err(workload::unsupported_workload(name)),
                    }
                }
            },
        }
    }
}

/// The first of `n` workloads that a custom schedule does not fit.
pub open spec fn first_misfit(
    list: Seq<SteadyStateWorkload>,
    schedule: Seq<SteadyStateOperation>,
    n: nat,
) -> Option<SteadyStateWorkload>
    decreases n,
{
    if n == 0 {
        None
    } else {
        match first_misfit(list, schedule, (n - 1) as nat) {
            Some(w) => Some(w),
            None => if list[n - 1].compatible(schedule) {
                None
            } else {
                Some(list[n - 1])
            },
        }
    }
}

impl SteadyStateConfig {
    pub open spec fn schedule(self) -> Option<Seq<SteadyStateOperation>> {
        match self.operation_schedule {
            Some(s) => Some(s@),
            None => None,
        }
    }

    /// The number of operations after which the order repeats.
    pub open spec fn period(self) -> nat {
        match self.schedule() {
            Some(s) => s.len(),
            None => self.operation_mix_period as nat,
        }
    }

    /// The rows that the configuration selects.
    pub open spec fn selected(self) -> Result<Seq<SteadyStateWorkload>, Seq<char>> {
        match self.bench_spec {
            None => Ok(workload::default_workloads_spec()),
            Some(spec) => workloads_listed(
                text::split(spec@, ','),
                text::split(spec@, ',').len(),
            ),
        }
    }

    /// Why the selected rows cannot run, if they cannot.
    pub open spec fn row_refusal(self, list: Seq<SteadyStateWorkload>) -> Option<Seq<char>> {
        match self.schedule() {
            None => if list.contains(SteadyStateWorkload::BalancedZipfian)
                && self.operation_mix_period % 2 != 0 {
                Some(
                    "balanced_zipfian requires an even --operation-mix-period for exact read=0.5,update=0.5"@,
                )
            } else if (list.contains(SteadyStateWorkload::ReadHeavyZipfian) || list.contains(
                SteadyStateWorkload::UpdateHeavyZipfian,
            )) && self.operation_mix_period % 20 != 0 {
                Some(
                    "read_heavy_zipfian and update_heavy_zipfian require --operation-mix-period to be a multiple of 20 for exact 95/5 mixes"@,
                )
            } else {
                None
            },
            Some(s) => if s.contains(SteadyStateOperation::Create) && exists|i: int|
                0 <= i < list.len() && #[trigger] list[i]
                    != SteadyStateWorkload::SustainedIngest {
                Some(
                    "custom steady-state operation mixes may include create only for sustained_ingest"@,
                )
            } else {
                match first_misfit(list, s, list.len()) {
                    Some(w) => Some(workload::incompatible_mix(w)),
                    None => None,
                }
            },
        }
    }

    /// Whether the row has an operation for every index.
    pub open spec fn schedules(self, w: SteadyStateWorkload) -> bool {
        &&& self.period() > 0
        &&& self.schedule() is None ==> w != SteadyStateWorkload::Idle
    }

    /// The operation at an index of a row.
    pub open spec fn operation(self, w: SteadyStateWorkload, index: nat) -> SteadyStateOperation {
        match self.schedule() {
            Some(s) => s[(index % s.len()) as int],
            None => if is_mixed(w) {
                if index % self.period() < read_slots(w, self.period()) {
                    SteadyStateOperation::Read
                } else {
                    SteadyStateOperation::Update
                }
            } else {
                match w {
                    SteadyStateWorkload::RangeScanUniform => SteadyStateOperation::Scan,
                    SteadyStateWorkload::SustainedIngest => SteadyStateOperation::Create,
                    _ => SteadyStateOperation::Read,
                }
            },
        }
    }

    /// How often `op` occurs among the first `n` operations of a row.
    pub open spec fn occurrences(
        self,
        w: SteadyStateWorkload,
        op: SteadyStateOperation,
        n: nat,
    ) -> nat
        decreases n,
    {
        if n == 0 {
            0
        } else {
            self.occurrences(w, op, (n - 1) as nat) + if self.operation(w, (n - 1) as nat) == op {
                1nat
            } else {
                0nat
            }
        }
    }

    /// The mix of the first `n` operations of a row.
    pub open spec fn prefix_mix(self, w: SteadyStateWorkload, n: nat) -> Seq<char> {
        if w == SteadyStateWorkload::Idle {
            "none"@
        } else {
            workload::mix_text(
                self.occurrences(w, SteadyStateOperation::Create, n),
                self.occurrences(w, SteadyStateOperation::Read, n),
                self.occurrences(w, SteadyStateOperation::Update, n),
                self.occurrences(w, SteadyStateOperation::Scan, n),
            )
        }
    }

    /// The configuration of a benchmark. `figures` holds what the numbers of its custom operation
    /// mix read as, one per part; it is not looked at where there is no such mix.
    pub fn from_benchmark(benchmark: &Benchmark, figures: &MixFigures) -> (r: Result<
        Self,
        Failure,
    >)
        requires
            benchmark.operation_mix matches Some(spec) ==> figures.parts@.len() == text::split(
                spec@,
                ',',
            ).len(),
        ensures
            match r {
                Ok(c) => {
                    let scale = preset_scale(benchmark.steady_state_preset);
                    let every = or_else_value(benchmark.latency_sample_every, scale.2);
                    &&& config_refusal(*benchmark, *figures) is None
                    &&& c.records == benchmark.samples
                    &&& c.warmup_secs == or_else_value(benchmark.warmup_secs, scale.0)
                    &&& c.measurement_secs == or_else_value(benchmark.measurement_secs, scale.1)
                    &&& c.latency_sample_every == if every == 0 { 1 } else { every }
                    &&& c.seed == benchmark.seed
                    &&& c.zipfian_exponent == benchmark.zipfian_exponent
                    &&& c.bench_spec == benchmark.steady_state_benches
                    &&& c.operation_mix == benchmark.operation_mix
                    &&& c.operation_mix_period == benchmark.operation_mix_period
                    &&& c.period() > 0
                    &&& match benchmark.operation_mix {
                        None => c.schedule() is None,
                        Some(spec) => c.schedule() is Some && mix::mix_schedule(
                            spec@,
                            benchmark.operation_mix_period,
                            figures.parts@,
                            figures.sum_gap,
                        ) == Ok::<Seq<SteadyStateOperation>, Seq<char>>(c.schedule()->0),
                    }
                },
                Err(e) => config_refusal(*benchmark, *figures) == Some(e@),
            },
    {
        if benchmark.operation_mix_period == 0 {
            return Err(
                Failure::new("--operation-mix-period must be greater than 0".to_owned()),
            );
        }
        let (warmup, measurement, every): (u64, u64, u64) = match benchmark.steady_state_preset {
            SteadyStatePreset::Smoke => (0, 1, 1),
            SteadyStatePreset::Default => (30, 120, 100),
            SteadyStatePreset::Large => (60, 300, 100),
        };
        let operation_schedule: Option<Vec<SteadyStateOperation>> = match &benchmark.operation_mix {
            None => None,
            Some(spec) => {
                match parse_operation_mix(
                    spec.as_str(),
                    benchmark.operation_mix_period,
                    figures,
                ) {
                    Ok(schedule) => Some(schedule),
                    Err(e) => {
                        return Err(e);
                    },
                }
            },
        };
        let sampled: u64 = benchmark.latency_sample_every.unwrap_or(every);
        Ok(
            SteadyStateConfig {
                records: benchmark.samples,
                warmup_secs: benchmark.warmup_secs.unwrap_or(warmup),
                measurement_secs: benchmark.measurement_secs.unwrap_or(measurement),
                latency_sample_every: if sampled == 0 {
                    1
                } else {
                    sampled
                },
                seed: benchmark.seed,
                zipfian_exponent: benchmark.zipfian_exponent,
                bench_spec: benchmark.steady_state_benches.clone(),
                operation_mix: benchmark.operation_mix.clone(),
                operation_schedule,
                operation_mix_period: benchmark.operation_mix_period,
            },
        )
    }

    /// Whether the operation mix has a slot.
    pub fn has_period(&self) -> (r: bool)
        ensures
            r == (self.period() > 0),
    {
        match &self.operation_schedule {
            Some(schedule) => schedule.len() > 0,
            None => self.operation_mix_period > 0,
        }
    }

    /// The rows that the row list names.
    #[verifier::loop_isolation(false)]
    fn listed(&self) -> (r: Result<Vec<SteadyStateWorkload>, Failure>)
        ensures
            match (r, self.selected()) {
                (Ok(list), Ok(want)) => list@ == want,
                (Err(e), Err(want)) => e@ == want,
                _ => false,
            },
    {
        let spec: &str = match &self.bench_spec {
            None => {
                return Ok(default_workloads());
            },
            Some(spec) => spec.as_str(),
        };
        let pieces: Vec<String> = split_on(spec, ',');
        let ghost all = text::texts(pieces@);
        let mut list: Vec<SteadyStateWorkload> = Vec::new();
        let mut i: usize = 0;
        while i < pieces.len()
            invariant
                i <= pieces@.len(),
                all == text::texts(pieces@),
                workloads_listed(all, i as nat) == Ok::<Seq<SteadyStateWorkload>, Seq<char>>(
                    list@,
                ),
            decreases pieces@.len() - i,
        {
            assert(all[i as int] == pieces@[i as int]@);
            let name: &str = trimmed(pieces[i].as_str());
            if !name.is_empty() {
                match SteadyStateWorkload::from_name(name) {
                    Ok(w) => {
                        list.push(w);
                    },
                    Err(e) => {
                        proof {
                            lemma_listing_refused(all, (i + 1) as nat, all.len());
                        }
                        return Err(e);
                    },
                }
            }
            i = i + 1;
        }
        Ok(list)
    }

    /// The rows to run, or why they cannot run.
    #[verifier::loop_isolation(false)]
    pub fn workloads(&self) -> (r: Result<Vec<SteadyStateWorkload>, Failure>)
        ensures
            match r {
                Ok(list) => self.selected() == Ok::<Seq<SteadyStateWorkload>, Seq<char>>(list@)
                    && self.row_refusal(list@) is None,
                Err(e) => match self.selected() {
                    Err(want) => e@ == want,
                    Ok(list) => self.row_refusal(list) == Some(e@),
                },
            },
    {
        let list: Vec<SteadyStateWorkload> = match self.listed() {
            Ok(list) => list,
            Err(e) => {
                return Err(e);
            },
        };
        match &self.operation_schedule {
            None => {
                if holds_workload(&list, SteadyStateWorkload::BalancedZipfian)
                    && self.operation_mix_period % 2 != 0 {
                    return Err(
                        Failure::new(
                            "balanced_zipfian requires an even --operation-mix-period for exact read=0.5,update=0.5".to_owned(),
                        ),
                    );
                }
                if (holds_workload(&list, SteadyStateWorkload::ReadHeavyZipfian)
                    || holds_workload(&list, SteadyStateWorkload::UpdateHeavyZipfian))
                    && self.operation_mix_period % 20 != 0 {
                    return Err(
                        Failure::new(
                            "read_heavy_zipfian and update_heavy_zipfian require --operation-mix-period to be a multiple of 20 for exact 95/5 mixes".to_owned(),
                        ),
                    );
                }
            },
            Some(schedule) => {
                if schedule_creates(schedule) && lists_prepared_row(&list) {
                    return Err(
                        Failure::new(
                            "custom steady-state operation mixes may include create only for sustained_ingest".to_owned(),
                        ),
                    );
                }
                let mut i: usize = 0;
                while i < list.len()
                    invariant
                        i <= list@.len(),
                        first_misfit(list@, schedule@, i as nat) is None,
                    decreases list@.len() - i,
                {
                    match list[i].validate_operation_schedule(schedule.as_slice()) {
                        Ok(()) => {},
                        Err(e) => {
                            proof {
                                lemma_first_misfit_kept(
                                    list@,
                                    schedule@,
                                    (i + 1) as nat,
                                    list@.len(),
                                );
                            }
                            return Err(e);
                        },
                    }
                    i = i + 1;
                }
            },
        }
        Ok(list)
    }
}

proof fn lemma_listing_refused(pieces: Seq<Seq<char>>, k: nat, n: nat)
    requires
        k <= n,
        workloads_listed(pieces, k) is Err,
    ensures
        workloads_listed(pieces, n) == workloads_listed(pieces, k),
    decreases n,
{
    if k < n {
        lemma_listing_refused(pieces, k, (n - 1) as nat);
    }
}

proof fn lemma_first_misfit_kept(
    list: Seq<SteadyStateWorkload>,
    schedule: Seq<SteadyStateOperation>,
    k: nat,
    n: nat,
)
    requires
        k <= n,
        first_misfit(list, schedule, k) is Some,
    ensures
        first_misfit(list, schedule, n) == first_misfit(list, schedule, k),
    decreases n,
{
    if k < n {
        lemma_first_misfit_kept(list, schedule, k, (n - 1) as nat);
    }
}

fn holds_workload(list: &Vec<SteadyStateWorkload>, w: SteadyStateWorkload) -> (r: bool)
    ensures
        r == list@.contains(w),
{
    let mut i: usize = 0;
    while i < list.len()
        invariant
            i <= list@.len(),
            forall|j: int| 0 <= j < i ==> list@[j] != w,
        decreases list@.len() - i,
    {
        if list[i] == w {
            return true;
        }
        i = i + 1;
    }
    false
}

fn schedule_creates(schedule: &Vec<SteadyStateOperation>) -> (r: bool)
    ensures
        r == schedule@.contains(SteadyStateOperation::Create),
{
    let mut i: usize = 0;
    while i < schedule.len()
        invariant
            i <= schedule@.len(),
            forall|j: int| 0 <= j < i ==> schedule@[j] != SteadyStateOperation::Create,
        decreases schedule@.len() - i,
    {
        if schedule[i] == SteadyStateOperation::Create {
            return true;
        }
        i = i + 1;
    }
    false
}

fn lists_prepared_row(list: &Vec<SteadyStateWorkload>) -> (r: bool)
    ensures
        r == exists|i: int|
            0 <= i < list@.len() && #[trigger] list@[i] != SteadyStateWorkload::SustainedIngest,
{
    let mut i: usize = 0;
    while i < list.len()
        invariant
            i <= list@.len(),
            forall|j: int| 0 <= j < i ==> list@[j] == SteadyStateWorkload::SustainedIngest,
        decreases list@.len() - i,
    {
        if list[i] != SteadyStateWorkload::SustainedIngest {
            return true;
        }
        i = i + 1;
    }
    false
}

proof fn lemma_operation_repeats(c: SteadyStateConfig, w: SteadyStateWorkload, k: nat, i: nat)
    requires
        c.schedules(w),
    ensures
        c.operation(w, k * c.period() + i) == c.operation(w, i),
{
    let p = c.period() as int;
    assert((k * p + i) % p == (i as int) % p) by {
        lemma_mod_multiples_vanish(k as int, i as int, p);
        assert(p * k + i == k * p + i) by (nonlinear_arith);
    }
}

proof fn lemma_occurrences_shift(
    c: SteadyStateConfig,
    w: SteadyStateWorkload,
    op: SteadyStateOperation,
    k: nat,
    r: nat,
)
    requires
        c.schedules(w),
    ensures
        c.occurrences(w, op, k * c.period() + r) == c.occurrences(w, op, k * c.period())
            + c.occurrences(w, op, r),
    decreases r,
{
    if r > 0 {
        lemma_occurrences_shift(c, w, op, k, (r - 1) as nat);
        lemma_operation_repeats(c, w, k, (r - 1) as nat);
        assert((k * c.period() + r - 1) as nat == k * c.period() + (r - 1) as nat);
    }
}

/// The operations of a row repeat period by period, and so do their counts.
pub proof fn lemma_occurrences_periodic(
    c: SteadyStateConfig,
    w: SteadyStateWorkload,
    op: SteadyStateOperation,
    k: nat,
    r: nat,
)
    requires
        c.schedules(w),
    ensures
        c.occurrences(w, op, k * c.period() + r) == k * c.occurrences(w, op, c.period())
            + c.occurrences(w, op, r),
    decreases k,
{
    let p = c.period();
    lemma_occurrences_shift(c, w, op, k, r);
    if k == 0 {
        assert(0 * p == 0);
        assert(0 * c.occurrences(w, op, p) == 0);
    } else {
        lemma_occurrences_periodic(c, w, op, (k - 1) as nat, 0);
        lemma_occurrences_shift(c, w, op, (k - 1) as nat, p);
        assert((k - 1) as nat * p + p == k * p) by (nonlinear_arith)
            requires
                k > 0,
        ;
        assert((k - 1) as nat * c.occurrences(w, op, p) + c.occurrences(w, op, p) == k
            * c.occurrences(w, op, p)) by (nonlinear_arith)
            requires
                k > 0,
        ;
    }
}

/// Every operation of a row is one of the four kinds.
pub proof fn lemma_occurrences_total(c: SteadyStateConfig, w: SteadyStateWorkload, n: nat)
    ensures
        c.occurrences(w, SteadyStateOperation::Create, n) + c.occurrences(
            w,
            SteadyStateOperation::Read,
            n,
        ) + c.occurrences(w, SteadyStateOperation::Update, n) + c.occurrences(
            w,
            SteadyStateOperation::Scan,
            n,
        ) == n,
    decreases n,
{
    if n > 0 {
        lemma_occurrences_total(c, w, (n - 1) as nat);
    }
}

/// The first part of a period of a mixed row: reads as long as its read slots last, then updates.
pub proof fn lemma_mixed_prefix(c: SteadyStateConfig, w: SteadyStateWorkload, n: nat)
    requires
        c.schedule() is None,
        is_mixed(w),
        n <= c.period(),
    ensures
        c.occurrences(w, SteadyStateOperation::Read, n) == if n <= read_slots(w, c.period()) {
            n
        } else {
            read_slots(w, c.period())
        },
        c.occurrences(w, SteadyStateOperation::Update, n) == if n <= read_slots(w, c.period()) {
            0
        } else {
            (n - read_slots(w, c.period())) as nat
        },
        c.occurrences(w, SteadyStateOperation::Create, n) == 0,
        c.occurrences(w, SteadyStateOperation::Scan, n) == 0,
    decreases n,
{
    if n > 0 {
        lemma_mixed_prefix(c, w, (n - 1) as nat);
        lemma_small_mod((n - 1) as nat, c.period());
    }
}

/// A row without a mix performs one operation only.
pub proof fn lemma_single_operation_row(
    c: SteadyStateConfig,
    w: SteadyStateWorkload,
    op: SteadyStateOperation,
    n: nat,
)
    requires
        c.schedule() is None,
        !is_mixed(w),
    ensures
        c.occurrences(w, op, n) == if op == c.operation(w, 0) {
            n
        } else {
            0
        },
    decreases n,
{
    if n > 0 {
        lemma_single_operation_row(c, w, op, (n - 1) as nat);
    }
}

/// The built-in mixes are exact over a period: half reads and half updates, 95% and 5%, or the
/// other way round.
pub proof fn lemma_builtin_mixes_exact(c: SteadyStateConfig)
    requires
        c.schedule() is None,
    ensures
        c.period() % 2 == 0 ==> {
            &&& 2 * c.occurrences(
                SteadyStateWorkload::BalancedZipfian,
                SteadyStateOperation::Read,
                c.period(),
            ) == c.period()
            &&& 2 * c.occurrences(
                SteadyStateWorkload::BalancedZipfian,
                SteadyStateOperation::Update,
                c.period(),
            ) == c.period()
        },
        c.period() % 20 == 0 ==> {
            &&& 20 * c.occurrences(
                SteadyStateWorkload::ReadHeavyZipfian,
                SteadyStateOperation::Read,
                c.period(),
            ) == 19 * c.period()
            &&& 20 * c.occurrences(
                SteadyStateWorkload::ReadHeavyZipfian,
                SteadyStateOperation::Update,
                c.period(),
            ) == c.period()
            &&& 20 * c.occurrences(
                SteadyStateWorkload::UpdateHeavyZipfian,
                SteadyStateOperation::Read,
                c.period(),
            ) == c.period()
            &&& 20 * c.occurrences(
                SteadyStateWorkload::UpdateHeavyZipfian,
                SteadyStateOperation::Update,
                c.period(),
            ) == 19 * c.period()
        },
{
    lemma_read_slots(c.period());
    lemma_mixed_prefix(c, SteadyStateWorkload::BalancedZipfian, c.period());
    lemma_mixed_prefix(c, SteadyStateWorkload::ReadHeavyZipfian, c.period());
    lemma_mixed_prefix(c, SteadyStateWorkload::UpdateHeavyZipfian, c.period());
}

proof fn lemma_read_slots(period: nat)
    ensures
        period % 2 == 0 ==> 2 * read_slots(SteadyStateWorkload::BalancedZipfian, period) == period,
        period % 20 == 0 ==> 20 * read_slots(SteadyStateWorkload::ReadHeavyZipfian, period) == 19
            * period,
        period % 20 == 0 ==> 20 * read_slots(SteadyStateWorkload::UpdateHeavyZipfian, period)
            == period,
{
}

proof fn lemma_half(period: u32)
    requires
        0 < period,
        period % 2 == 0,
    ensures
        decimal::exact_slots("0.5"@, period) == Some(period as nat / 2),
        text::free_of("0.5"@, ','),
{
    reveal_strlit("0.5");
    let s = "0.5"@;
    decimal::lemma_plain_decimal(s);
    let digits = s.take(1) + s.skip(2);
    assert(digits =~= seq!['0', '5']);
    assert(digits.drop_last() =~= seq!['0']);
    assert(seq!['0'].drop_last() =~= Seq::empty());
    assert(decimal::number(digits) == 5) by {
        reveal_with_fuel(decimal::number, 3);
    }
    assert(decimal::pow10(1) == 10) by {
        reveal_with_fuel(decimal::power, 2);
    }
    let p = period as nat;
    assert((5 * p) % 10 == 0 && 5 * p / 10 == p / 2);
    assert(decimal::whole_product(5, -1, p) == Some(p / 2));
}

proof fn lemma_twentieths(period: u32)
    requires
        0 < period,
        period % 20 == 0,
    ensures
        decimal::exact_slots("0.95"@, period) == Some(period as nat * 19 / 20),
        decimal::exact_slots("0.05"@, period) == Some(period as nat / 20),
        text::free_of("0.95"@, ','),
        text::free_of("0.05"@, ','),
{
    reveal_strlit("0.95");
    reveal_strlit("0.05");
    let s = "0.95"@;
    let t = "0.05"@;
    decimal::lemma_plain_decimal(s);
    decimal::lemma_plain_decimal(t);
    let a = s.take(1) + s.skip(2);
    let b = t.take(1) + t.skip(2);
    assert(a =~= seq!['0', '9', '5']);
    assert(b =~= seq!['0', '0', '5']);
    assert(a.drop_last() =~= seq!['0', '9']);
    assert(b.drop_last() =~= seq!['0', '0']);
    assert(seq!['0', '9'].drop_last() =~= seq!['0']);
    assert(seq!['0', '0'].drop_last() =~= seq!['0']);
    assert(seq!['0'].drop_last() =~= Seq::empty());
    assert(decimal::number(a) == 95 && decimal::number(b) == 5) by {
        reveal_with_fuel(decimal::number, 4);
    }
    assert(decimal::pow10(2) == 100) by {
        reveal_with_fuel(decimal::power, 3);
    }
    let p = period as nat;
    lemma_twentieth_arithmetic(p);
    assert(decimal::whole_product(5, -2, p) == Some(p / 20));
    assert(decimal::whole_product(95, -2, p) == Some(p * 19 / 20));
}

proof fn lemma_twentieth_arithmetic(p: nat)
    requires
        p % 20 == 0,
    ensures
        (5 * p) % 100 == 0,
        5 * p / 100 == p / 20,
        (95 * p) % 100 == 0,
        95 * p / 100 == p * 19 / 20,
{
    let k = p / 20;
    assert(p == 20 * k);
    assert(5 * p == 100 * k);
    assert(95 * p == 100 * (19 * k));
    assert(p * 19 == 20 * (19 * k));
}

proof fn lemma_whole(period: u32)
    requires
        0 < period,
    ensures
        decimal::exact_slots("1.0"@, period) == Some(period as nat),
{
    reveal_strlit("1.0");
    let s = "1.0"@;
    decimal::lemma_plain_decimal(s);
    let digits = s.take(1) + s.skip(2);
    assert(digits =~= seq!['1', '0']);
    assert(digits.drop_last() =~= seq!['1']);
    assert(seq!['1'].drop_last() =~= Seq::empty());
    assert(decimal::number(digits) == 10) by {
        reveal_with_fuel(decimal::number, 3);
    }
    assert(decimal::pow10(1) == 10) by {
        reveal_with_fuel(decimal::power, 2);
    }
    let p = period as nat;
    assert((10 * p) % 10 == 0 && 10 * p / 10 == p);
    assert(decimal::whole_product(10, -1, p) == Some(p));
}

/// The mix words of a mixed row as joined parts.
proof fn lemma_mixed_words(w: SteadyStateWorkload, c: SteadyStateConfig)
    requires
        c.operation_mix is None,
        is_mixed(w),
    ensures
        w.mix_words(c) == text::join(
            seq![
                "read"@ + seq!['='] + mixed_shares(w).0,
                "update"@ + seq!['='] + mixed_shares(w).1,
            ],
            seq![','],
        ),
{
    reveal_strlit("read");
    reveal_strlit("update");
    reveal_strlit("0.5");
    reveal_strlit("0.95");
    reveal_strlit("0.05");
    reveal_strlit("read=0.5,update=0.5");
    reveal_strlit("read=0.95,update=0.05");
    reveal_strlit("read=0.05,update=0.95");
    let a = "read"@ + seq!['='] + mixed_shares(w).0;
    let b = "update"@ + seq!['='] + mixed_shares(w).1;
    let parts = seq![a, b];
    assert(parts.drop_last() =~= seq![a]);
    assert(text::join(parts, seq![',']) == a + seq![','] + b) by {
        reveal_with_fuel(text::join, 2);
    }
    assert(w.mix_words(c) =~= a + seq![','] + b);
}

/// The shares of reads and updates that a mixed row advertises.
spec fn mixed_shares(w: SteadyStateWorkload) -> (Seq<char>, Seq<char>) {
    match w {
        SteadyStateWorkload::BalancedZipfian => ("0.5"@, "0.5"@),
        SteadyStateWorkload::ReadHeavyZipfian => ("0.95"@, "0.05"@),
        _ => ("0.05"@, "0.95"@),
    }
}

/// The built-in order of a row is the schedule that its advertised mix stands for: parsing the mix
/// that the artifact reports gives back, slot by slot, what the row performs.
pub proof fn lemma_builtin_schedule_is_advertised(
    c: SteadyStateConfig,
    w: SteadyStateWorkload,
    figures: Seq<MixFigure>,
    sum_gap: Float64,
)
    requires
        c.schedule() is None,
        c.operation_mix is None,
        w != SteadyStateWorkload::Idle,
        0 < c.operation_mix_period <= mix::MAX_OPERATION_MIX_PERIOD,
        c.row_refusal(seq![w]) is None,
        figures.len() == text::split(w.mix_words(c), ',').len(),
        forall|j: int| 0 <= j < figures.len() ==> mix::is_share(#[trigger] figures[j]),
    ensures
        match mix::mix_schedule(w.mix_words(c), c.operation_mix_period, figures, sum_gap) {
            Ok(s) => s.len() == c.period() && forall|i: nat|
                #[trigger] c.operation(w, i) == s[(i % s.len()) as int],
            Err(e) => false,
        },
{
    let p = c.operation_mix_period;
    assert(seq![w][0] == w);
    assert(seq![w].contains(w));
    if is_mixed(w) {
        let reads = read_slots(w, p as nat);
        lemma_mixed_schedule(c, w, figures, sum_gap);
        let s = mix::repeated(SteadyStateOperation::Read, reads) + mix::repeated(
            SteadyStateOperation::Update,
            (p - reads) as nat,
        );
        assert forall|i: nat| #[trigger] c.operation(w, i) == s[(i % s.len()) as int] by {
            lemma_mod_bound(i as int, s.len() as int);
        }
    } else {
        let op = c.operation(w, 0);
        lemma_single_schedule(c, w, figures, sum_gap);
        let s = mix::repeated(op, p as nat);
        assert forall|i: nat| #[trigger] c.operation(w, i) == s[(i % s.len()) as int] by {
            lemma_mod_bound(i as int, s.len() as int);
        }
    }
}

proof fn lemma_mixed_schedule(
    c: SteadyStateConfig,
    w: SteadyStateWorkload,
    figures: Seq<MixFigure>,
    sum_gap: Float64,
)
    requires
        c.operation_mix is None,
        is_mixed(w),
        0 < c.operation_mix_period <= mix::MAX_OPERATION_MIX_PERIOD,
        if w == SteadyStateWorkload::BalancedZipfian {
            c.operation_mix_period % 2 == 0
        } else {
            c.operation_mix_period % 20 == 0
        },
        figures.len() == text::split(w.mix_words(c), ',').len(),
        forall|j: int| 0 <= j < figures.len() ==> mix::is_share(#[trigger] figures[j]),
    ensures
        read_slots(w, c.operation_mix_period as nat) <= c.operation_mix_period,
        mix::mix_schedule(w.mix_words(c), c.operation_mix_period, figures, sum_gap) == Ok::<
            Seq<SteadyStateOperation>,
            Seq<char>,
        >(
            mix::repeated(
                SteadyStateOperation::Read,
                read_slots(w, c.operation_mix_period as nat),
            ) + mix::repeated(
                SteadyStateOperation::Update,
                (c.operation_mix_period - read_slots(w, c.operation_mix_period as nat)) as nat,
            ),
        ),
{
    let p = c.operation_mix_period;
    let shares = mixed_shares(w);
    let reads = read_slots(w, p as nat);
    if w == SteadyStateWorkload::BalancedZipfian {
        lemma_half(p);
    } else {
        lemma_twentieths(p);
        let k = p as nat / 20;
        assert(p == 20 * k);
        assert(p as nat * 19 / 20 == 19 * k);
    }
    let updates = (p - reads) as nat;
    assert(decimal::exact_slots(shares.0, p) == Some(reads));
    assert(decimal::exact_slots(shares.1, p) == Some(updates));
    lemma_mixed_words(w, c);
    lemma_mixed_parts(w, c, shares);
    mix::lemma_two_parts(w.mix_words(c), shares.0, shares.1, reads, updates, p, figures, sum_gap);
}

proof fn lemma_single_schedule(
    c: SteadyStateConfig,
    w: SteadyStateWorkload,
    figures: Seq<MixFigure>,
    sum_gap: Float64,
)
    requires
        c.schedule() is None,
        c.operation_mix is None,
        w != SteadyStateWorkload::Idle,
        !is_mixed(w),
        0 < c.operation_mix_period <= mix::MAX_OPERATION_MIX_PERIOD,
        figures.len() == text::split(w.mix_words(c), ',').len(),
        forall|j: int| 0 <= j < figures.len() ==> mix::is_share(#[trigger] figures[j]),
    ensures
        mix::mix_schedule(w.mix_words(c), c.operation_mix_period, figures, sum_gap) == Ok::<
            Seq<SteadyStateOperation>,
            Seq<char>,
        >(mix::repeated(c.operation(w, 0), c.operation_mix_period as nat)),
{
    reveal_strlit("read");
    reveal_strlit("scan");
    reveal_strlit("create");
    reveal_strlit("update");
    reveal_strlit("1.0");
    reveal_strlit("read=1.0");
    reveal_strlit("scan=1.0");
    reveal_strlit("create=1.0");
    let op = c.operation(w, 0);
    let name = match op {
        SteadyStateOperation::Scan => "scan"@,
        SteadyStateOperation::Create => "create"@,
        _ => "read"@,
    };
    assert("read"@[0] != "scan"@[0]);
    assert("read"@[0] != "create"@[0]);
    assert("scan"@[0] != "create"@[0]);
    assert("update"@[0] != "create"@[0]);
    assert("update"@[0] != "scan"@[0]);
    let words = w.mix_words(c);
    assert(words =~= name + seq!['='] + "1.0"@);
    text::lemma_first_index_unique(words, ',', words.len() as int);
    lemma_whole(c.operation_mix_period);
    mix::lemma_one_part(words, name, "1.0"@, op, c.operation_mix_period, figures, sum_gap);
}

proof fn lemma_mixed_parts(
    w: SteadyStateWorkload,
    c: SteadyStateConfig,
    shares: (Seq<char>, Seq<char>),
)
    requires
        c.operation_mix is None,
        is_mixed(w),
        shares == mixed_shares(w),
        text::free_of(shares.0, ','),
        text::free_of(shares.1, ','),
    ensures
        text::split(w.mix_words(c), ',').len() == 2,
{
    reveal_strlit("read");
    reveal_strlit("update");
    let a = "read"@ + seq!['='] + shares.0;
    let b = "update"@ + seq!['='] + shares.1;
    let parts = seq![a, b];
    lemma_mixed_words(w, c);
    assert forall|i: int| 0 <= i < a.len() implies #[trigger] a[i] != ',' by {
        if i >= 5 {
            assert(a[i] == shares.0[i - 5]);
        }
    }
    assert forall|i: int| 0 <= i < b.len() implies #[trigger] b[i] != ',' by {
        if i >= 7 {
            assert(b[i] == shares.1[i - 7]);
        }
    }
    text::lemma_split_join(parts, ',');
}

proof fn lemma_full_periods_bound(full: nat, a: nat, p: nat, completed: nat)
    requires
        a <= p,
        full * p <= completed,
    ensures
        full * a <= completed,
{
    assert(full * a <= full * p) by (nonlinear_arith)
        requires
            a <= p,
    ;
}

impl SteadyStateWorkload {
    /// The operation at an index of the row.
    pub fn operation_at(self, config: &SteadyStateConfig, op_index: u64) -> (r:
        SteadyStateOperation)
        requires
            config.schedules(self),
        ensures
            r == config.operation(self, op_index as nat),
    {
        match &config.operation_schedule {
            Some(schedule) => {
                return schedule[(op_index % (schedule.len() as u64)) as usize];
            },
            None => {},
        }
        let period: u64 = config.operation_mix_period as u64;
        match self {
            SteadyStateWorkload::BalancedZipfian => {
                if op_index % period < period / 2 {
                    SteadyStateOperation::Read
                } else {
                    SteadyStateOperation::Update
                }
            },
            SteadyStateWorkload::ReadHeavyZipfian => {
                if op_index % period < period * 19 / 20 {
                    SteadyStateOperation::Read
                } else {
                    SteadyStateOperation::Update
                }
            },
            SteadyStateWorkload::UpdateHeavyZipfian => {
                if op_index % period < period / 20 {
                    SteadyStateOperation::Read
                } else {
                    SteadyStateOperation::Update
                }
            },
            SteadyStateWorkload::RangeScanUniform => SteadyStateOperation::Scan,
            SteadyStateWorkload::SustainedIngest => SteadyStateOperation::Create,
            _ => SteadyStateOperation::Read,
        }
    }

    /// The mix of the row in words, as the artifact reports it.
    pub open spec fn mix_words(self, config: SteadyStateConfig) -> Seq<char> {
        match config.operation_mix {
            Some(spec) => spec@,
            None => match self {
                SteadyStateWorkload::BalancedZipfian => "read=0.5,update=0.5"@,
                SteadyStateWorkload::ReadHeavyZipfian => "read=0.95,update=0.05"@,
                SteadyStateWorkload::UpdateHeavyZipfian => "read=0.05,update=0.95"@,
                SteadyStateWorkload::RangeScanUniform => "scan=1.0"@,
                SteadyStateWorkload::SustainedIngest => "create=1.0"@,
                SteadyStateWorkload::Idle => "none"@,
                _ => "read=1.0"@,
            },
        }
    }

    pub fn operation_mix(self, config: &SteadyStateConfig) -> (r: String)
        ensures
            r@ == self.mix_words(*config),
    {
        match &config.operation_mix {
            Some(spec) => {
                return spec.clone();
            },
            None => {},
        }
        let words: &'static str = match self {
            SteadyStateWorkload::BalancedZipfian => "read=0.5,update=0.5",
            SteadyStateWorkload::ReadHeavyZipfian => "read=0.95,update=0.05",
            SteadyStateWorkload::UpdateHeavyZipfian => "read=0.05,update=0.95",
            SteadyStateWorkload::RangeScanUniform => "scan=1.0",
            SteadyStateWorkload::SustainedIngest => "create=1.0",
            SteadyStateWorkload::Idle => "none",
            _ => "read=1.0",
        };
        words.to_owned()
    }

    /// The counts of `full` whole periods of the row.
    fn whole_periods(self, config: &SteadyStateConfig, full: u64, completed: u64) -> (r:
        SteadyStateCounts)
        requires
            config.schedules(self),
            full * config.period() <= completed,
        ensures
            forall|op: SteadyStateOperation| #[trigger]
                r.of(op) == full * config.occurrences(self, op, config.period()),
    {
        let mut counts: SteadyStateCounts = SteadyStateCounts::new();
        let period: u64 = match &config.operation_schedule {
            Some(schedule) => schedule.len() as u64,
            None => config.operation_mix_period as u64,
        };
        match &config.operation_schedule {
            Some(schedule) => {
                let mut i: usize = 0;
                assert(full * 0 == 0);
                while i < schedule.len()
                    invariant
                        i <= schedule@.len(),
                        config.schedule() == Some(schedule@),
                        full * schedule@.len() <= completed,
                        forall|op: SteadyStateOperation| #[trigger]
                            counts.of(op) == full * config.occurrences(self, op, i as nat),
                    decreases schedule@.len() - i,
                {
                    let op: SteadyStateOperation = schedule[i];
                    proof {
                        lemma_small_mod(i as nat, schedule@.len());
                        assert(config.operation(self, i as nat) == op);
                        lemma_occurrences_total(*config, self, i as nat);
                        lemma_full_periods_bound(
                            full as nat,
                            config.occurrences(self, op, i as nat) + 1,
                            schedule@.len(),
                            completed as nat,
                        );
                        assert(full * (config.occurrences(self, op, i as nat) + 1) == full
                            * config.occurrences(self, op, i as nat) + full) by (nonlinear_arith);
                        assert(counts.of(op) == full * config.occurrences(self, op, i as nat));
                    }
                    let ghost before = counts;
                    counts.add_n(op, full);
                    assert forall|other: SteadyStateOperation| #[trigger]
                        counts.of(other) == full * config.occurrences(
                            self,
                            other,
                            (i + 1) as nat,
                        ) by {
                        assert(before.of(other) == full * config.occurrences(
                            self,
                            other,
                            i as nat,
                        ));
                    }
                    i = i + 1;
                }
            },
            None => {
                match self {
                    SteadyStateWorkload::BalancedZipfian
                    | SteadyStateWorkload::ReadHeavyZipfian
                    | SteadyStateWorkload::UpdateHeavyZipfian => {
                        let reads: u64 = match self {
                            SteadyStateWorkload::BalancedZipfian => period / 2,
                            SteadyStateWorkload::ReadHeavyZipfian => period * 19 / 20,
                            _ => period / 20,
                        };
                        proof {
                            lemma_mixed_prefix(*config, self, config.period());
                            lemma_full_periods_bound(
                                full as nat,
                                reads as nat,
                                config.period(),
                                completed as nat,
                            );
                            lemma_full_periods_bound(
                                full as nat,
                                (period - reads) as nat,
                                config.period(),
                                completed as nat,
                            );
                            assert(full * 0 == 0);
                        }
                        counts.reads = full * reads;
                        counts.updates = full * (period - reads);
                    },
                    _ => {
                        let op: SteadyStateOperation = self.operation_at(config, 0);
                        counts.add_n(op, full * period);
                        assert forall|other: SteadyStateOperation| #[trigger]
                            counts.of(other) == full * config.occurrences(
                                self,
                                other,
                                config.period(),
                            ) by {
                            lemma_single_operation_row(*config, self, other, config.period());
                            assert(full * 0 == 0);
                        }
                    },
                }
            },
        }
        counts
    }

    /// The mix that the first `completed` operations of the row have.
    pub fn expected_mix_prefix(self, config: &SteadyStateConfig, completed: u64) -> (r: String)
        requires
            self == SteadyStateWorkload::Idle || config.schedules(self),
        ensures
            r@ == config.prefix_mix(self, completed as nat),
    {
        if self == SteadyStateWorkload::Idle {
            return "none".to_owned();
        }
        let period: u64 = match &config.operation_schedule {
            Some(schedule) => schedule.len() as u64,
            None => config.operation_mix_period as u64,
        };
        let full: u64 = completed / period;
        let rest: u64 = completed % period;
        proof {
            lemma_fundamental_div_mod(completed as int, period as int);
            assert(period * full == full * period) by (nonlinear_arith);
        }
        let mut counts: SteadyStateCounts = self.whole_periods(config, full, completed);
        let mut done: u64 = 0;
        assert forall|op: SteadyStateOperation| #[trigger]
            counts.of(op) == config.occurrences(self, op, (full * period + done) as nat) by {
            lemma_occurrences_periodic(*config, self, op, full as nat, 0);
        }
        while done < rest
            invariant
                done <= rest,
                config.schedules(self),
                config.period() == period,
                full * period + rest == completed,
                forall|op: SteadyStateOperation| #[trigger]
                    counts.of(op) == config.occurrences(
                        self,
                        op,
                        (full * period + done) as nat,
                    ),
            decreases rest - done,
        {
            let at: u64 = full * period + done;
            let op: SteadyStateOperation = self.operation_at(config, at);
            proof {
                lemma_occurrences_total(*config, self, at as nat);
                assert(counts.of(op) == config.occurrences(self, op, at as nat));
            }
            let ghost before = counts;
            counts.add(op);
            assert forall|other: SteadyStateOperation| #[trigger]
                counts.of(other) == config.occurrences(self, other, (at + 1) as nat) by {
                assert(before.of(other) == config.occurrences(self, other, at as nat));
            }
            done = done + 1;
        }
        assert(counts.of(SteadyStateOperation::Create) == counts.creates);
        assert(counts.of(SteadyStateOperation::Read) == counts.reads);
        assert(counts.of(SteadyStateOperation::Update) == counts.updates);
        assert(counts.of(SteadyStateOperation::Scan) == counts.scans);
        counts.to_mix_string()
    }
}

} // verus!
