//! Seeded key selection: uniform, scrambled Zipfian and positional scans.
use crate::binary64;
use crate::binary64::{unit_fraction, Float64};
use crate::config::SteadyStateConfig;
use crate::failure::Failure;
use crate::operation::{Scan, ScanWithWrites};
use crate::workload::SteadyStateWorkload;
use vstd::arithmetic::div_mod::*;
use vstd::prelude::*;

verus! {

/// What the seed is mixed with before the keys are scrambled.
pub const SCRAMBLE_SALT: u64 = 0xD1B5_4A32_D192_ED03;

/// The rows that one range scan covers.
pub const SCAN_WIDTH: usize = 100;

/// One step of the splitmix64 generator.
pub open spec fn splitmix(value: u64) -> u64 {
    let v = value.wrapping_add(0x9E37_79B9_7F4A_7C15);
    let y = (v ^ (v >> 30)).wrapping_mul(0xBF58_476D_1CE4_E5B9);
    let z = (y ^ (y >> 27)).wrapping_mul(0x94D0_49BB_1331_11EB);
    z ^ (z >> 31)
}

pub fn splitmix64(value: u64) -> (r: u64)
    ensures
        r == splitmix(value),
{
    let v: u64 = value.wrapping_add(0x9E37_79B9_7F4A_7C15);
    let mut z: u64 = (v ^ (v >> 30)).wrapping_mul(0xBF58_476D_1CE4_E5B9);
    z = (z ^ (z >> 27)).wrapping_mul(0x94D0_49BB_1331_11EB);
    z ^ (z >> 31)
}

/// At least one record.
pub open spec fn at_least_one(records: u32) -> u32 {
    if records == 0 {
        1
    } else {
        records
    }
}

/// `keys` with the entries at `i` and `j` exchanged.
pub open spec fn swapped(keys: Seq<u32>, i: int, j: int) -> Seq<u32> {
    keys.update(i, keys[j]).update(j, keys[i])
}

/// The partner that position `i` is exchanged with when the generator stands at `rng`.
pub open spec fn partner(rng: u64, i: nat) -> int {
    (rng as usize) as int % (i as int + 1)
}

/// Exchanges position `i`, then `i - 1`, down to 1, each with a drawn position at or below it.
pub open spec fn shuffled(keys: Seq<u32>, rng: u64, i: nat) -> Seq<u32>
    decreases i,
{
    if i == 0 {
        keys
    } else {
        let next = splitmix(rng);
        shuffled(swapped(keys, i as int, partner(next, i)), next, (i - 1) as nat)
    }
}

/// The keys 0, 1, 2 and so on, in order.
pub open spec fn ordered_keys(n: nat) -> Seq<u32> {
    Seq::new(n, |i: int| i as u32)
}

/// The keys in the order of their popularity: shuffled, with key 0 never the most popular where
/// there is a choice.
pub open spec fn scrambled(records: u32, seed: u64) -> Seq<u32> {
    let n = at_least_one(records) as nat;
    let keys = shuffled(ordered_keys(n), splitmix(seed ^ SCRAMBLE_SALT), (n - 1) as nat);
    if n > 1 && keys[0] == 0 {
        swapped(keys, 0, 1)
    } else {
        keys
    }
}

/// Whether `keys` holds each number below its length once.
pub open spec fn is_permutation(keys: Seq<u32>) -> bool {
    &&& keys.no_duplicates()
    &&& forall|i: int| 0 <= i < keys.len() ==> (#[trigger] keys[i]) < keys.len()
}

proof fn lemma_swapped_permutation(keys: Seq<u32>, i: int, j: int)
    requires
        is_permutation(keys),
        0 <= i < keys.len(),
        0 <= j < keys.len(),
    ensures
        is_permutation(swapped(keys, i, j)),
        swapped(keys, i, j).len() == keys.len(),
{
}

proof fn lemma_shuffled_permutation(keys: Seq<u32>, rng: u64, i: nat)
    requires
        is_permutation(keys),
        i < keys.len() || i == 0,
    ensures
        is_permutation(shuffled(keys, rng, i)),
        shuffled(keys, rng, i).len() == keys.len(),
    decreases i,
{
    if i > 0 {
        let next = splitmix(rng);
        let j = partner(next, i);
        lemma_mod_bound((next as usize) as int, i as int + 1);
        lemma_swapped_permutation(keys, i as int, j);
        lemma_shuffled_permutation(swapped(keys, i as int, j), next, (i - 1) as nat);
    }
}

/// The scrambled keys are the keys `0..records`, each once, and with two or more records the most
/// popular one is not key 0.
pub proof fn lemma_scrambled_keys(records: u32, seed: u64)
    ensures
        scrambled(records, seed).len() == at_least_one(records),
        is_permutation(scrambled(records, seed)),
        records > 1 ==> scrambled(records, seed)[0] != 0,
{
    let n = at_least_one(records) as nat;
    let keys = ordered_keys(n);
    assert(is_permutation(keys));
    lemma_shuffled_permutation(keys, splitmix(seed ^ SCRAMBLE_SALT), (n - 1) as nat);
    let done = shuffled(keys, splitmix(seed ^ SCRAMBLE_SALT), (n - 1) as nat);
    if n > 1 {
        lemma_swapped_permutation(done, 0, 1);
    }
}

/// The keys in the order of their popularity.
pub fn build_scrambled_keys(records: u32, seed: u64) -> (r: Vec<u32>)
    ensures
        r@ == scrambled(records, seed),
{
    let n: u32 = if records == 0 {
        1
    } else {
        records
    };
    let mut keys: Vec<u32> = Vec::new();
    let mut k: u32 = 0;
    while k < n
        invariant
            k <= n,
            keys@ == ordered_keys(k as nat),
        decreases n - k,
    {
        keys.push(k);
        k = k + 1;
        assert(keys@ =~= ordered_keys(k as nat));
    }
    let mut rng: u64 = splitmix64(seed ^ SCRAMBLE_SALT);
    let ghost want = shuffled(keys@, rng, (n - 1) as nat);
    let mut i: usize = keys.len() - 1;
    while i > 0
        invariant
            i < keys@.len() == n,
            shuffled(keys@, rng, i as nat) == want,
        decreases i,
    {
        rng = splitmix64(rng);
        let j: usize = (rng as usize) % (i + 1);
        let a: u32 = keys[i];
        let b: u32 = keys[j];
        let ghost before = keys@;
        keys.set(i, b);
        keys.set(j, a);
        assert(keys@ =~= swapped(before, i as int, j as int));
        i = i - 1;
    }
    if keys.len() > 1 && keys[0] == 0 {
        let b: u32 = keys[1];
        let ghost before = keys@;
        keys.set(0, b);
        keys.set(1, 0);
        assert(keys@ =~= swapped(before, 0, 1));
    }
    keys
}

/// The draws below this number are rejected, so that each residue is equally likely.
pub open spec fn rejection_threshold(upper: u64) -> u64 {
    (((u64::MAX - upper) + 1) % (upper as int)) as u64
}

/// As many draws are left for each residue as for any other.
pub proof fn lemma_rejection_unbiased(upper: u64)
    requires
        upper > 0,
    ensures
        rejection_threshold(upper) < upper,
        (u64::MAX as int + 1 - rejection_threshold(upper)) % (upper as int) == 0,
{
    let all = u64::MAX as int + 1;
    let t = (all - upper) % (upper as int);
    lemma_mod_bound(all - upper, upper as int);
    lemma_fundamental_div_mod(all - upper, upper as int);
    let q = (all - upper) / (upper as int);
    assert(all - t == (q + 1) * upper) by (nonlinear_arith)
        requires
            all - upper == upper * q + t,
    ;
    lemma_mod_multiples_basic(q + 1, upper as int);
}

/// The first draw after `rng` that is not rejected. Where `spare` further draws in a row were
/// rejected too, it is the last of them.
pub open spec fn accepted_draw(rng: u64, threshold: u64, spare: nat) -> u64
    decreases spare,
{
    let next = splitmix(rng);
    if next >= threshold || spare == 0 {
        next
    } else {
        accepted_draw(next, threshold, (spare - 1) as nat)
    }
}

/// Where the generator stands after a uniform draw below `upper`.
///
/// A run of rejections longer than the number of rejected values repeats one of them, and such a
/// generator only ever draws rejected values; the draw ends there.
pub open spec fn uniform_state(rng: u64, upper: u32) -> u64 {
    if upper == 0 {
        rng
    } else {
        let threshold = rejection_threshold(upper as u64);
        accepted_draw(rng, threshold, threshold as nat)
    }
}

pub open spec fn uniform_value(rng: u64, upper: u32) -> u32 {
    if upper == 0 {
        0
    } else {
        (uniform_state(rng, upper) as int % (upper as int)) as u32
    }
}

/// Whether the row picks its keys by popularity.
pub open spec fn zipfian(w: SteadyStateWorkload) -> bool {
    w == SteadyStateWorkload::BalancedZipfian || w == SteadyStateWorkload::ReadHeavyZipfian || w
        == SteadyStateWorkload::UpdateHeavyZipfian || w == SteadyStateWorkload::PointReadZipfian || w
        == SteadyStateWorkload::PointReadMissingInRange
}

pub fn uses_zipfian(workload: SteadyStateWorkload) -> (r: bool)
    ensures
        r == zipfian(workload),
{
    match workload {
        SteadyStateWorkload::BalancedZipfian
        | SteadyStateWorkload::ReadHeavyZipfian
        | SteadyStateWorkload::UpdateHeavyZipfian
        | SteadyStateWorkload::PointReadZipfian
        | SteadyStateWorkload::PointReadMissingInRange => true,
        _ => false,
    }
}

/// Whether `k` parts the entries below `sample` from the others: the one before it is below, the
/// one at it is not.
pub open spec fn parts_at(cdf: Seq<Float64>, sample: Float64, k: int) -> bool {
    &&& 0 <= k <= cdf.len()
    &&& k > 0 ==> cdf[k - 1].less(sample)
    &&& k < cdf.len() ==> !cdf[k].less(sample)
}

/// Where an entry below `sample` never follows one that is not, as in an ascending table, there is
/// one such place: all entries before it are below, none after.
pub proof fn lemma_parting_unique(cdf: Seq<Float64>, sample: Float64, k: int)
    requires
        parts_at(cdf, sample, k),
        forall|i: int, j: int|
            0 <= i <= j < cdf.len() && (#[trigger] cdf[j]).less(sample) ==> (
            #[trigger] cdf[i]).less(sample),
    ensures
        forall|i: int| 0 <= i < k ==> (#[trigger] cdf[i]).less(sample),
        forall|i: int| k <= i < cdf.len() ==> !(#[trigger] cdf[i]).less(sample),
{
    assert forall|i: int| 0 <= i < k implies (#[trigger] cdf[i]).less(sample) by {
        assert(cdf[k - 1].less(sample));
    }
    assert forall|i: int| k <= i < cdf.len() implies !(#[trigger] cdf[i]).less(sample) by {
        assert(!cdf[k].less(sample));
    }
}

/// Finds the place that parts the entries below `sample` from the others.
fn partition(cdf: &Vec<Float64>, sample: Float64) -> (r: usize)
    ensures
        parts_at(cdf@, sample, r as int),
{
    let mut low: usize = 0;
    let mut high: usize = cdf.len();
    while low < high
        invariant
            low <= high <= cdf@.len(),
            low > 0 ==> cdf@[low - 1].less(sample),
            high < cdf@.len() ==> !cdf@[high as int].less(sample),
        decreases high - low,
    {
        let mid: usize = low + (high - low) / 2;
        if cdf[mid].lt(sample) {
            low = mid + 1;
        } else {
            high = mid;
        }
    }
    low
}

/// The number of a worker: its client's threads come one after the other.
pub fn worker_index(client: u32, threads: u32, thread: u32) -> (r: u64)
    ensures
        r == client * threads + thread,
{
    assert(client * threads + thread <= 0xFFFF_FFFF * 0xFFFF_FFFF + 0xFFFF_FFFF)
        by (nonlinear_arith)
        requires
            client <= 0xFFFF_FFFF,
            threads <= 0xFFFF_FFFF,
            thread <= 0xFFFF_FFFF,
    ;
    client as u64 * threads as u64 + thread as u64
}

/// No two workers share a number, so no two workers share a stream of keys by their number.
pub proof fn lemma_worker_indices_distinct(
    client: u32,
    thread: u32,
    other_client: u32,
    other_thread: u32,
    threads: u32,
)
    requires
        thread < threads,
        other_thread < threads,
        client * threads + thread == other_client * threads + other_thread,
    ensures
        client == other_client,
        thread == other_thread,
{
    lemma_fundamental_div_mod_converse(
        client * threads + thread,
        threads as int,
        client as int,
        thread as int,
    );
    lemma_fundamental_div_mod_converse(
        other_client * threads + other_thread,
        threads as int,
        other_client as int,
        other_thread as int,
    );
}

/// The key generator of one worker.
pub struct KeySelector {
    pub records: u32,
    pub scan_width: usize,
    pub rng: u64,
    pub zipf_cdf: Vec<Float64>,
    pub scrambled_keys: Vec<u32>,
}

impl KeySelector {
    /// A selector by popularity has one table entry and one key per record; any other has none.
    pub open spec fn wf(self) -> bool {
        &&& self.zipf_cdf@.len() == self.scrambled_keys@.len()
        &&& self.scrambled_keys@.len() == 0 || self.scrambled_keys@.len() == at_least_one(
            self.records,
        )
        &&& is_permutation(self.scrambled_keys@)
    }

    /// What a draw leaves as it was.
    pub open spec fn same_tables(self, other: Self) -> bool {
        &&& self.records == other.records
        &&& self.scan_width == other.scan_width
        &&& self.zipf_cdf == other.zipf_cdf
        &&& self.scrambled_keys == other.scrambled_keys
    }

    /// Whether `key` is what a selector in state `self` picks next.
    pub open spec fn picks(self, key: u32) -> bool {
        if self.zipf_cdf@.len() == 0 {
            key == uniform_value(self.rng, at_least_one(self.records))
        } else {
            exists|k: int, sample: Float64|
                {
                    &&& #[trigger] parts_at(self.zipf_cdf@, sample, k)
                    &&& sample.is_finite_spec()
                    &&& sample.bits < binary64::SIGN
                    &&& binary64::units(sample) == binary64::round53(splitmix(self.rng) as nat)
                        * vstd::arithmetic::power2::pow2(1010)
                    &&& key == self.scrambled_keys@[if k < self.zipf_cdf@.len() {
                        k
                    } else {
                        k - 1
                    }]
                }
        }
    }

    /// Where the generator stands after a key was picked.
    pub open spec fn after_pick(self) -> u64 {
        if self.zipf_cdf@.len() == 0 {
            uniform_state(self.rng, at_least_one(self.records))
        } else {
            splitmix(self.rng)
        }
    }

    /// The selector of a worker. `zipf_cdf` is the cumulative popularity of the records; it is
    /// dropped where the row does not pick by popularity.
    pub fn new(
        config: &SteadyStateConfig,
        workload: SteadyStateWorkload,
        worker_index: u64,
        zipf_cdf: Vec<Float64>,
    ) -> (r: Self)
        requires
            zipfian(workload) ==> zipf_cdf@.len() == at_least_one(config.records),
        ensures
            r.wf(),
            r.records == config.records,
            r.scan_width == SCAN_WIDTH,
            r.rng == splitmix(config.seed ^ worker_index),
            zipfian(workload) ==> r.zipf_cdf@ == zipf_cdf@ && r.scrambled_keys@ == scrambled(
                config.records,
                config.seed,
            ),
            !zipfian(workload) ==> r.zipf_cdf@.len() == 0 && r.scrambled_keys@.len() == 0,
    {
        let rng: u64 = splitmix64(config.seed ^ worker_index);
        proof {
            lemma_scrambled_keys(config.records, config.seed);
        }
        if uses_zipfian(workload) {
            KeySelector {
                records: config.records,
                scan_width: SCAN_WIDTH,
                rng,
                zipf_cdf,
                scrambled_keys: build_scrambled_keys(config.records, config.seed),
            }
        } else {
            KeySelector {
                records: config.records,
                scan_width: SCAN_WIDTH,
                rng,
                zipf_cdf: Vec::new(),
                scrambled_keys: Vec::new(),
            }
        }
    }

    /// The next number of the generator.
    pub fn next_u64(&mut self) -> (r: u64)
        ensures
            r == splitmix(old(self).rng),
            final(self).rng == r,
            final(self).same_tables(*old(self)),
    {
        self.rng = splitmix64(self.rng);
        self.rng
    }

    /// A number below `upper`, each equally likely; 0 where there is none.
    pub fn uniform_u32(&mut self, upper: u32) -> (r: u32)
        ensures
            r == uniform_value(old(self).rng, upper),
            upper > 0 ==> r < upper,
            final(self).rng == uniform_state(old(self).rng, upper),
            final(self).same_tables(*old(self)),
    {
        if upper == 0 {
            return 0;
        }
        let wide: u64 = upper as u64;
        let threshold: u64 = (u64::MAX - wide + 1) % wide;
        let ghost start = self.rng;
        let ghost was = *self;
        assert(threshold == rejection_threshold(wide));
        let mut spare: u64 = threshold;
        let mut value: u64 = self.next_u64();
        while value < threshold && spare > 0
            invariant
                value == self.rng,
                self.same_tables(was),
                accepted_draw(start, threshold, threshold as nat) == if value >= threshold || spare
                    == 0 {
                    value
                } else {
                    accepted_draw(value, threshold, (spare - 1) as nat)
                },
            decreases spare,
        {
            value = self.next_u64();
            spare = spare - 1;
        }
        (value % wide) as u32
    }

    /// The next number of the generator, as a share of the largest one.
    pub fn uniform_fraction(&mut self) -> (r: Float64)
        ensures
            r.is_finite_spec(),
            r.bits < binary64::SIGN,
            binary64::units(r) == binary64::round53(splitmix(old(self).rng) as nat)
                * vstd::arithmetic::power2::pow2(1010),
            final(self).rng == splitmix(old(self).rng),
            final(self).same_tables(*old(self)),
    {
        let draw: u64 = self.next_u64();
        unit_fraction(draw)
    }

    /// The next key of the row.
    pub fn next_key(&mut self) -> (r: u32)
        requires
            old(self).wf(),
        ensures
            old(self).picks(r),
            r < at_least_one(old(self).records),
            final(self).rng == old(self).after_pick(),
            final(self).same_tables(*old(self)),
            final(self).wf(),
    {
        if self.zipf_cdf.len() == 0 {
            let upper: u32 = if self.records == 0 {
                1
            } else {
                self.records
            };
            return self.uniform_u32(upper);
        }
        let sample: Float64 = self.uniform_fraction();
        let k: usize = partition(&self.zipf_cdf, sample);
        let rank: usize = if k < self.zipf_cdf.len() {
            k
        } else {
            self.zipf_cdf.len() - 1
        };
        assert(parts_at(self.zipf_cdf@, sample, k as int));
        self.scrambled_keys[rank]
    }

    /// The next key that the dataset does not hold: as far above the loaded keys as the picked key
    /// is above zero.
    pub fn next_missing_key(&mut self) -> (r: Result<u32, Failure>)
        requires
            old(self).wf(),
        ensures
            exists|key: u32| #[trigger]
                old(self).picks(key) && key < at_least_one(old(self).records) && match r {
                    Ok(k) => k == old(self).records + key,
                    Err(e) => old(self).records + key > u32::MAX && e@
                        == "missing-read key range exceeded u32 key space"@,
                },
            r matches Ok(k) ==> k >= old(self).records,
            final(self).rng == old(self).after_pick(),
            final(self).same_tables(*old(self)),
            final(self).wf(),
    {
        let records: u32 = self.records;
        let key: u32 = self.next_key();
        match records.checked_add(key) {
            Some(k) => Ok(k),
            None => Err(
                Failure::new("missing-read key range exceeded u32 key space".to_owned()),
            ),
        }
    }

    /// The number of places at which a range scan may start.
    pub open spec fn scan_starts(self) -> u32 {
        if self.records > self.scan_width as u32 {
            (self.records - (self.scan_width as u32) + 1) as u32
        } else {
            1
        }
    }

    /// Whether `scan` is the range scan that a selector in state `self` draws next: 100 rows from a
    /// drawn place on, all inside the dataset where it is large enough.
    pub open spec fn scans(self, scan: Scan) -> bool {
        &&& scan.id@ == "range_scan_uniform"@
        &&& scan.name@ == "range_scan_uniform"@
        &&& scan.spec_group == 0
        &&& !scan.multi_run_spec
        &&& scan.iterations is None
        &&& scan.condition is None
        &&& scan.order_by is None
        &&& scan.start == Some(uniform_value(self.rng, self.scan_starts()) as usize)
        &&& scan.limit == Some(SCAN_WIDTH)
        &&& scan.expect == Some(
            if self.records < SCAN_WIDTH {
                self.records as usize
            } else {
                SCAN_WIDTH
            },
        )
        &&& scan.projection matches Some(p) && p@ == "ID"@
        &&& scan.with_index is None
        &&& scan.with_writes@.len() == 0
        &&& scan.vector_query is None
        &&& self.records >= SCAN_WIDTH ==> scan.start->0 + SCAN_WIDTH <= self.records
        &&& self.records < SCAN_WIDTH ==> scan.start->0 == 0
    }

    /// The next range scan: `scan_width` rows from a drawn place on.
    pub fn next_scan(&mut self) -> (r: Scan)
        requires
            old(self).scan_width == SCAN_WIDTH,
        ensures
            old(self).scans(r),
            final(self).rng == uniform_state(old(self).rng, old(self).scan_starts()),
            final(self).same_tables(*old(self)),
    {
        let width: u32 = self.scan_width as u32;
        let max_start: u32 = self.records.saturating_sub(width);
        let start: u32 = self.uniform_u32(max_start.saturating_add(1));
        let records: usize = self.records as usize;
        Scan {
            id: "range_scan_uniform".to_owned(),
            spec_group: 0,
            multi_run_spec: false,
            name: "range_scan_uniform".to_owned(),
            iterations: None,
            condition: None,
            order_by: None,
            start: Some(start as usize),
            limit: Some(self.scan_width),
            expect: Some(
                if records < self.scan_width {
                    records
                } else {
                    self.scan_width
                },
            ),
            projection: Some("ID".to_owned()),
            with_index: None,
            with_writes: Vec::<ScanWithWrites>::new(),
            vector_query: None,
        }
    }
}

} // verus!
