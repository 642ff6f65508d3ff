//! Key selection: which keys a worker draws, and how.
use crate::binary64;
use crate::binary64::Float64;
use crate::operation::Scan;
use crate::selector;
use crate::selector::KeySelector;
use crate::workload::SteadyStateWorkload;
use vstd::arithmetic::div_mod::*;
use vstd::prelude::*;

verus! {

/// A row picks its keys by popularity exactly where it reports to; each row reports how it picks.
pub proof fn lemma_selection_as_reported(w: SteadyStateWorkload)
    ensures
        selector::zipfian(w) <==> w.key_selection_text() == "scrambled_zipfian"@
            || w.key_selection_text() == "scrambled_zipfian_missing_range"@,
        w.key_selection_text() == "scrambled_zipfian_missing_range"@ <==> w
            == SteadyStateWorkload::PointReadMissingInRange,
        w.key_selection_text() == "uniform"@ <==> w == SteadyStateWorkload::PointReadUniform,
        w.key_selection_text() == "uniform_positional"@ <==> w
            == SteadyStateWorkload::RangeScanUniform,
        w.key_selection_text() == "unique_sequential"@ <==> w
            == SteadyStateWorkload::SustainedIngest,
        w.key_selection_text() == "none"@ <==> w == SteadyStateWorkload::Idle,
{
    reveal_strlit("scrambled_zipfian");
    reveal_strlit("scrambled_zipfian_missing_range");
    reveal_strlit("uniform");
    reveal_strlit("uniform_positional");
    reveal_strlit("unique_sequential");
    reveal_strlit("none");
    assert("scrambled_zipfian"@.len() == 17);
    assert("scrambled_zipfian_missing_range"@.len() == 31);
    assert("uniform"@.len() == 7);
    assert("uniform_positional"@.len() == 18);
    assert("unique_sequential"@.len() == 17);
    assert("none"@.len() == 4);
    assert("scrambled_zipfian"@[0] != "unique_sequential"@[0]);
}

/// The number that a generator stands at after `n` draws.
pub open spec fn after_draws(rng: u64, n: nat) -> u64
    decreases n,
{
    if n == 0 {
        rng
    } else {
        selector::splitmix(after_draws(rng, (n - 1) as nat))
    }
}

proof fn lemma_draws_shift(rng: u64, n: nat)
    ensures
        after_draws(selector::splitmix(rng), n) == after_draws(rng, n + 1),
    decreases n,
{
    reveal_with_fuel(after_draws, 2);
    if n > 0 {
        lemma_draws_shift(rng, (n - 1) as nat);
    }
}

proof fn lemma_first_accepted(rng: u64, threshold: u64, spare: nat) -> (n: nat)
    ensures
        1 <= n <= spare + 1,
        selector::accepted_draw(rng, threshold, spare) == after_draws(rng, n),
        forall|j: nat| 0 < j < n ==> (#[trigger] after_draws(rng, j)) < threshold,
        after_draws(rng, n) >= threshold || n == spare + 1,
    decreases spare,
{
    let next = selector::splitmix(rng);
    reveal_with_fuel(after_draws, 2);
    assert(after_draws(rng, 1) == next);
    if next >= threshold || spare == 0 {
        1
    } else {
        let m = lemma_first_accepted(next, threshold, (spare - 1) as nat);
        lemma_draws_shift(rng, m);
        assert forall|j: nat| 0 < j < m + 1 implies (#[trigger] after_draws(rng, j)) < threshold by {
            if j > 1 {
                lemma_draws_shift(rng, (j - 1) as nat);
                assert(after_draws(next, (j - 1) as nat) < threshold);
            }
        }
        m + 1
    }
}

/// A uniform draw is the remainder of the first number of the generator that is not rejected; the
/// rejected ones are those below the threshold. It lies below its bound.
pub proof fn lemma_uniform_draw(rng: u64, upper: u32)
    requires
        upper > 0,
    ensures
        selector::uniform_value(rng, upper) < upper,
        selector::uniform_value(rng, upper) == selector::uniform_state(rng, upper) as int % (
        upper as int),
        exists|n: nat|
            #![trigger after_draws(rng, n)]
            {
                &&& n >= 1
                &&& selector::uniform_state(rng, upper) == after_draws(rng, n)
                &&& forall|j: nat|
                    0 < j < n ==> (#[trigger] after_draws(rng, j)) < (u64::MAX as int + 1) % (
                    upper as int)
                &&& after_draws(rng, n) >= (u64::MAX as int + 1) % (upper as int) || n
                    > selector::rejection_threshold(upper as u64)
            },
{
    let t = selector::rejection_threshold(upper as u64);
    let all = u64::MAX as int + 1;
    lemma_mod_bound(selector::uniform_state(rng, upper) as int, upper as int);
    lemma_mod_bound(all - upper, upper as int);
    lemma_sub_mod_noop(all, upper as int, upper as int);
    lemma_mod_self_0(upper as int);
    lemma_mod_twice(all, upper as int);
    assert((all - upper) % (upper as int) == all % (upper as int));
    assert(t == all % (upper as int));
    let n = lemma_first_accepted(rng, t, t as nat);
    assert(selector::uniform_state(rng, upper) == after_draws(rng, n));
}

/// Whatever a selector picks is a key of its dataset; without records it is key 0.
pub proof fn lemma_picked_in_range(s: KeySelector, key: u32)
    requires
        s.wf(),
        s.picks(key),
    ensures
        s.records > 0 ==> key < s.records,
        s.records == 0 ==> key == 0,
{
    lemma_uniform_draw(s.rng, selector::at_least_one(s.records));
    if s.zipf_cdf@.len() > 0 {
        let (k, sample) = choose|k: int, sample: Float64|
            {
                &&& #[trigger] selector::parts_at(s.zipf_cdf@, sample, k)
                &&& sample.is_finite_spec()
                &&& sample.bits < binary64::SIGN
                &&& binary64::units(sample) == binary64::round53(selector::splitmix(s.rng) as nat)
                    * vstd::arithmetic::power2::pow2(1010)
                &&& key == s.scrambled_keys@[if k < s.zipf_cdf@.len() {
                    k
                } else {
                    k - 1
                }]
            };
        let rank = if k < s.zipf_cdf@.len() {
            k
        } else {
            k - 1
        };
        assert(s.scrambled_keys@[rank] < s.scrambled_keys@.len());
    }
}

/// Whether the share falls on the rank: all ranks before end below it, and the rank itself does not,
/// unless it is the last.
pub open spec fn falls_on(cdf: Seq<Float64>, share: Float64, rank: int) -> bool {
    &&& 0 <= rank < cdf.len()
    &&& forall|i: int| 0 <= i < rank ==> (#[trigger] cdf[i]).less(share)
    &&& !cdf[rank].less(share) || rank == cdf.len() - 1
}

/// Whether the table rises: where an entry lies below a share, so do all before it.
pub open spec fn rises(cdf: Seq<Float64>) -> bool {
    forall|i: int, j: int, share: Float64|
        #![trigger cdf[i].less(share), cdf[j].less(share)]
        0 <= i <= j < cdf.len() && cdf[j].less(share) ==> cdf[i].less(share)
}

/// A pick by popularity is the key of the rank that the drawn share of all popularity falls on.
pub proof fn lemma_picked_by_rank(s: KeySelector, key: u32)
    requires
        s.wf(),
        s.picks(key),
        s.zipf_cdf@.len() > 0,
        rises(s.zipf_cdf@),
    ensures
        exists|rank: int, share: Float64|
            {
                &&& #[trigger] falls_on(s.zipf_cdf@, share, rank)
                &&& key == s.scrambled_keys@[rank]
                &&& share.is_finite_spec()
                &&& share.bits < binary64::SIGN
                &&& binary64::units(share) == binary64::round53(selector::splitmix(s.rng) as nat)
                    * vstd::arithmetic::power2::pow2(1010)
            },
{
    let cdf = s.zipf_cdf@;
    let (k, share) = choose|k: int, share: Float64|
        {
            &&& #[trigger] selector::parts_at(cdf, share, k)
            &&& share.is_finite_spec()
            &&& share.bits < binary64::SIGN
            &&& binary64::units(share) == binary64::round53(selector::splitmix(s.rng) as nat)
                * vstd::arithmetic::power2::pow2(1010)
            &&& key == s.scrambled_keys@[if k < cdf.len() {
                k
            } else {
                k - 1
            }]
        };
    let rank = if k < cdf.len() {
        k
    } else {
        k - 1
    };
    assert forall|i: int| 0 <= i < rank implies (#[trigger] cdf[i]).less(share) by {
        assert(cdf[k - 1].less(share));
    }
    assert(falls_on(cdf, share, rank));
}

proof fn lemma_shuffle_leaves(keys: Seq<u32>, rng: u64, i: nat, k: int)
    requires
        i < k < keys.len(),
    ensures
        selector::shuffled(keys, rng, i)[k] == keys[k],
        selector::shuffled(keys, rng, i).len() == keys.len(),
    decreases i,
{
    if i > 0 {
        let next = selector::splitmix(rng);
        let j = selector::partner(next, i);
        lemma_mod_bound((next as usize) as int, i as int + 1);
        lemma_shuffle_leaves(selector::swapped(keys, i as int, j), next, (i - 1) as nat, k);
    }
}

/// A shuffle draws from the keys that are left, each place from the last one down: what ends up at a
/// place is one of the keys up to it, picked by the remainder of the next number of the generator,
/// and the key that stood there takes the drawn one's place.
pub proof fn lemma_shuffle_draws(keys: Seq<u32>, rng: u64, i: nat)
    requires
        0 < i < keys.len(),
    ensures
        ({
            let drawn = (selector::splitmix(rng) as usize) as int % (i as int + 1);
            let rest = selector::swapped(keys, i as int, drawn);
            &&& 0 <= drawn <= i
            &&& selector::shuffled(keys, rng, i)[i as int] == keys[drawn]
            &&& rest[drawn] == if drawn == i {
                keys[drawn]
            } else {
                keys[i as int]
            }
            &&& selector::shuffled(keys, rng, i) == selector::shuffled(
                rest,
                selector::splitmix(rng),
                (i - 1) as nat,
            )
        }),
{
    let next = selector::splitmix(rng);
    let drawn = (next as usize) as int % (i as int + 1);
    lemma_mod_bound((next as usize) as int, i as int + 1);
    let rest = selector::swapped(keys, i as int, drawn);
    lemma_shuffle_leaves(rest, next, (i - 1) as nat, i as int);
}

/// A drawn range scan asks for 100 ids without a condition. In a dataset that is large enough it
/// lies inside and expects them all, and it may start at any place from which it does; in a smaller
/// one it starts at the first record and expects all records.
pub proof fn lemma_drawn_scan(s: KeySelector, scan: Scan)
    requires
        s.scan_width == 100,
        s.scans(scan),
    ensures
        scan.id@ == "range_scan_uniform"@ && scan.name@ == "range_scan_uniform"@,
        scan.spec_group == 0 && !scan.multi_run_spec && scan.iterations is None,
        scan.start is Some,
        scan.limit == Some(100usize),
        scan.condition is None && scan.order_by is None && scan.with_index is None
            && scan.vector_query is None && scan.with_writes@.len() == 0,
        scan.projection is Some && scan.projection->0@ == "ID"@,
        scan.expect is Some,
        s.records >= 100 ==> {
            &&& scan.expect->0 == 100
            &&& scan.start->0 + 100 <= s.records
            &&& s.scan_starts() == s.records - 99
        },
        s.records < 100 ==> {
            &&& scan.expect->0 == s.records
            &&& scan.start->0 == 0
            &&& s.scan_starts() == 1
        },
        scan.start->0 == selector::uniform_value(s.rng, s.scan_starts()),
{
    lemma_uniform_draw(s.rng, s.scan_starts());
}

/// A pick by popularity takes one number of the generator, any other pick as many as its uniform draw
/// takes.
pub proof fn lemma_generator_moves(s: KeySelector)
    requires
        s.wf(),
    ensures
        s.zipf_cdf@.len() > 0 ==> s.after_pick() == after_draws(s.rng, 1),
        s.zipf_cdf@.len() == 0 && s.records > 0 ==> s.after_pick() == selector::uniform_state(
            s.rng,
            s.records,
        ),
        s.records > 0 ==> selector::at_least_one(s.records) == s.records,
        selector::at_least_one(0) == 1,
{
    reveal_with_fuel(after_draws, 2);
}

/// A draw leaves everything of a selector but its generator.
pub proof fn lemma_tables_kept(a: KeySelector, b: KeySelector)
    requires
        a.same_tables(b),
    ensures
        a.records == b.records,
        a.scan_width == b.scan_width,
        a.zipf_cdf == b.zipf_cdf,
        a.scrambled_keys == b.scrambled_keys,
        a.wf() <==> b.wf(),
        a.rng == b.rng ==> a == b,
{
}

/// The keys are scrambled by one shuffle of all keys, by a generator of its own for each seed; the
/// first two change places where the most popular would be key 0.
pub proof fn lemma_scrambled_by_shuffle(records: u32, seed: u64)
    requires
        records > 1,
    ensures
        ({
            let ordered = Seq::new(records as nat, |i: int| i as u32);
            let rng = selector::splitmix(seed ^ 0xD1B5_4A32_D192_ED03);
            let shuffled = selector::shuffled(ordered, rng, (records - 1) as nat);
            let keys = selector::scrambled(records, seed);
            &&& shuffled[0] != 0 ==> keys == shuffled
            &&& shuffled[0] == 0 ==> keys[0] == shuffled[1] && keys[1] == 0 && forall|i: int|
                2 <= i < shuffled.len() ==> #[trigger] keys[i] == shuffled[i]
        }),
{
    let ordered = Seq::new(records as nat, |i: int| i as u32);
    assert(ordered =~= selector::ordered_keys(records as nat));
    let rng = selector::splitmix(seed ^ 0xD1B5_4A32_D192_ED03);
    lemma_shuffle_length(ordered, rng, (records - 1) as nat);
}

proof fn lemma_shuffle_length(keys: Seq<u32>, rng: u64, i: nat)
    requires
        i < keys.len(),
    ensures
        selector::shuffled(keys, rng, i).len() == keys.len(),
    decreases i,
{
    if i > 0 {
        let next = selector::splitmix(rng);
        let j = selector::partner(next, i);
        lemma_mod_bound((next as usize) as int, i as int + 1);
        let rest = selector::swapped(keys, i as int, j);
        assert(rest.len() == keys.len());
        lemma_shuffle_length(rest, next, (i - 1) as nat);
    }
}

} // verus!
