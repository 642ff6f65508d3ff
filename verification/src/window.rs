//! A steady-state window: what each worker does next, and the counts that all workers share.
use crate::binary64::Float64;
use crate::config::SteadyStateConfig;
use crate::failure::Failure;
use crate::operation::Scan;
use crate::recorder;
use crate::recorder::Recorder;
use crate::selector;
use crate::selector::KeySelector;
use crate::text;
use crate::text::{cat3, cat4, decimal_text};
use crate::workload;
use crate::workload::{observed_shares, SteadyStateOperation, SteadyStateWorkload};
use vstd::arithmetic::div_mod::*;
use vstd::prelude::*;

verus! {

/// What has been counted in a window.
#[derive(Clone, Copy, Debug, PartialEq, Eq, Structural)]
pub struct WindowCounts {
    pub completed: u64,
    pub read_hits: u64,
    pub read_misses: u64,
    pub updates: u64,
    pub creates: u64,
    pub scans: u64,
    pub errors: u64,
    pub scan_count_errors: u64,
    pub latency_samples: u64,
    /// One above the highest key that may have been created.
    pub cleanup_upper: u64,
}

/// What the workers of a window share.
pub struct Window {
    /// The key of the first record that the window creates.
    pub start_op_index: u64,
    /// The next operation to hand out.
    pub sequence: u64,
    pub counts: WindowCounts,
    /// The first failure.
    pub failure_reason: Option<String>,
    /// The operations that started in each second of the window.
    pub per_second: Vec<u64>,
}

/// What a worker asks of its client.
pub enum WindowCall {
    Create { key: u32 },
    Read { key: u32 },
    Update { key: u32 },
    Scan { scan: Scan },
}

/// What the client answered.
pub enum Answer {
    Succeeded,
    Failed { reason: String },
    /// It took longer than an operation may take.
    TimedOut,
}

/// The key that an operation of a window creates.
pub open spec fn created_key(start_op_index: u64, op_index: u64) -> Result<u32, Seq<char>> {
    if start_op_index + op_index > u64::MAX {
        Err("sustained_ingest exceeded u64 key space"@)
    } else if start_op_index + op_index > u32::MAX {
        Err("sustained_ingest exceeded u32 key space"@)
    } else {
        Ok((start_op_index + op_index) as u32)
    }
}

pub open spec fn larger(a: u64, b: int) -> u64 {
    if a < b {
        b as u64
    } else {
        a
    }
}

pub open spec fn timed_out(w: SteadyStateWorkload) -> Seq<char> {
    "steady-state "@ + w.name_text() + " timed out"@
}

pub open spec fn unexpected_hit(w: SteadyStateWorkload, key: u32) -> Seq<char> {
    "steady-state "@ + w.name_text() + " expected missing key "@ + text::decimal(key as nat)
}

pub open spec fn expects_missing(w: SteadyStateWorkload) -> bool {
    w == SteadyStateWorkload::PointReadMissingInRange
}

/// The error of an operation, if its answer is one. A row that expects its reads to miss fails on a
/// hit.
pub open spec fn answer_error(
    w: SteadyStateWorkload,
    op: SteadyStateOperation,
    key: u32,
    answer: Answer,
) -> Option<Seq<char>> {
    match answer {
        Answer::TimedOut => Some(timed_out(w)),
        Answer::Succeeded => if op == SteadyStateOperation::Read && expects_missing(w) {
            Some(unexpected_hit(w, key))
        } else {
            None
        },
        Answer::Failed { reason } => if op == SteadyStateOperation::Read && expects_missing(w) {
            None
        } else {
            Some(reason@)
        },
    }
}

/// The counts after an answer: every answered read is a hit or a miss, any other operation counts
/// where it succeeded.
pub open spec fn answered(
    c: WindowCounts,
    op: SteadyStateOperation,
    answer: Answer,
) -> WindowCounts {
    match answer {
        Answer::TimedOut => c,
        Answer::Succeeded => match op {
            SteadyStateOperation::Create => WindowCounts {
                creates: c.creates.wrapping_add(1),
                ..c
            },
            SteadyStateOperation::Read => WindowCounts {
                read_hits: c.read_hits.wrapping_add(1),
                ..c
            },
            SteadyStateOperation::Update => WindowCounts {
                updates: c.updates.wrapping_add(1),
                ..c
            },
            SteadyStateOperation::Scan => WindowCounts { scans: c.scans.wrapping_add(1), ..c },
        },
        Answer::Failed { .. } => if op == SteadyStateOperation::Read {
            WindowCounts { read_misses: c.read_misses.wrapping_add(1), ..c }
        } else {
            c
        },
    }
}

/// The counts after a failed operation.
pub open spec fn failed(c: WindowCounts, op: SteadyStateOperation) -> WindowCounts {
    WindowCounts {
        errors: c.errors.wrapping_add(1),
        scan_count_errors: if op == SteadyStateOperation::Scan {
            c.scan_count_errors.wrapping_add(1)
        } else {
            c.scan_count_errors
        },
        ..c
    }
}

/// Whether the latency of an operation is sampled.
pub open spec fn sampled(op_index: u64, every: u64) -> bool {
    if every == 0 {
        op_index == 0
    } else {
        op_index as int % every as int == 0
    }
}

/// The counts after a completed operation.
pub open spec fn completed(c: WindowCounts, sample: bool) -> WindowCounts {
    WindowCounts {
        completed: c.completed.wrapping_add(1),
        latency_samples: if sample {
            c.latency_samples.wrapping_add(1)
        } else {
            c.latency_samples
        },
        ..c
    }
}

/// The seconds of a window with one more operation in the given second.
pub open spec fn counted_second(seconds: Seq<u64>, second: int) -> Seq<u64> {
    Seq::new(
        if seconds.len() <= second {
            (second + 1) as nat
        } else {
            seconds.len()
        },
        |i: int|
            {
                let before = if i < seconds.len() {
                    seconds[i]
                } else {
                    0
                };
                if i == second {
                    before.wrapping_add(1)
                } else {
                    before
                }
            },
    )
}

pub open spec fn reason_view(reason: Option<String>) -> Option<Seq<char>> {
    match reason {
        Some(r) => Some(r@),
        None => None,
    }
}

/// The first of two failures.
pub open spec fn first_reason(before: Option<Seq<char>>, now: Seq<char>) -> Option<Seq<char>> {
    match before {
        Some(r) => Some(r),
        None => Some(now),
    }
}

/// What a window has counted, and what it hands out next.
pub struct WindowState {
    /// The key of the first record that the window creates.
    pub start: u64,
    /// The next operation to hand out.
    pub sequence: u64,
    pub counts: WindowCounts,
    /// The first failure.
    pub reason: Option<Seq<char>>,
    /// The operations that started in each second of the window.
    pub seconds: Seq<u64>,
}

impl WindowState {
    /// A window before its first operation.
    pub open spec fn empty(start: u64) -> Self {
        WindowState {
            start,
            sequence: 0,
            counts: WindowCounts {
                completed: 0,
                read_hits: 0,
                read_misses: 0,
                updates: 0,
                creates: 0,
                scans: 0,
                errors: 0,
                scan_count_errors: 0,
                latency_samples: 0,
                cleanup_upper: start,
            },
            reason: None,
            seconds: Seq::empty(),
        }
    }

    /// The window with one more operation handed out.
    pub open spec fn claimed(self) -> Self {
        WindowState { sequence: self.sequence.wrapping_add(1), ..self }
    }

    /// The window with the record of an operation, if it creates one, in the range to clean up.
    pub open spec fn called(self, op: SteadyStateOperation, op_index: u64) -> Self {
        WindowState {
            counts: WindowCounts {
                cleanup_upper: match created_key(self.start, op_index) {
                    Ok(key) => if op == SteadyStateOperation::Create {
                        larger(self.counts.cleanup_upper, key + 1)
                    } else {
                        self.counts.cleanup_upper
                    },
                    Err(_) => self.counts.cleanup_upper,
                },
                ..self.counts
            },
            ..self
        }
    }

    /// The window with one more failed operation.
    pub open spec fn failed_with(self, op: SteadyStateOperation, reason: Seq<char>) -> Self {
        WindowState {
            counts: failed(self.counts, op),
            reason: first_reason(self.reason, reason),
            ..self
        }
    }

    /// The window with what became of an operation. An answer that is an error fails the operation;
    /// any other completes it, and counts it in the second in which it started where the window is
    /// recorded.
    pub open spec fn settled(
        self,
        w: SteadyStateWorkload,
        op: SteadyStateOperation,
        key: u32,
        answer: Answer,
        record: bool,
        sample: bool,
        second: int,
    ) -> Self {
        let counts = answered(self.counts, op, answer);
        match answer_error(w, op, key, answer) {
            Some(reason) => (WindowState { counts, ..self }).failed_with(op, reason),
            None => WindowState {
                counts: completed(counts, record && sample),
                seconds: if record {
                    counted_second(self.seconds, second)
                } else {
                    self.seconds
                },
                ..self
            },
        }
    }
}

fn add_one(n: u64) -> (r: u64)
    ensures
        r == n.wrapping_add(1),
{
    n.wrapping_add(1)
}

impl Window {
    pub open spec fn reason(self) -> Option<Seq<char>> {
        reason_view(self.failure_reason)
    }

    pub open spec fn state(self) -> WindowState {
        WindowState {
            start: self.start_op_index,
            sequence: self.sequence,
            counts: self.counts,
            reason: self.reason(),
            seconds: self.per_second@,
        }
    }

    /// An empty window that creates records from the given key on.
    pub fn new(start_op_index: u64) -> (r: Self)
        ensures
            r.state() == WindowState::empty(start_op_index),
    {
        Window {
            start_op_index,
            sequence: 0,
            counts: WindowCounts {
                completed: 0,
                read_hits: 0,
                read_misses: 0,
                updates: 0,
                creates: 0,
                scans: 0,
                errors: 0,
                scan_count_errors: 0,
                latency_samples: 0,
                cleanup_upper: start_op_index,
            },
            failure_reason: None,
            per_second: Vec::new(),
        }
    }

    /// Hands out the next operation.
    pub fn claim(&mut self) -> (r: u64)
        ensures
            r == old(self).state().sequence,
            final(self).state() == old(self).state().claimed(),
    {
        let op_index: u64 = self.sequence;
        self.sequence = self.sequence.wrapping_add(1);
        op_index
    }

    /// What the operation asks of the client. A created record is counted into the range to clean
    /// up before it is created.
    pub fn call(
        &mut self,
        workload: SteadyStateWorkload,
        op: SteadyStateOperation,
        op_index: u64,
        keys: &mut KeySelector,
    ) -> (r: Result<WindowCall, Failure>)
        requires
            old(keys).wf(),
            old(keys).scan_width == selector::SCAN_WIDTH,
        ensures
            final(keys).wf(),
            final(keys).same_tables(*old(keys)),
            final(self).state() == old(self).state().called(op, op_index),
            match op {
                SteadyStateOperation::Create => {
                    &&& *final(keys) == *old(keys)
                    &&& match (r, created_key(old(self).start_op_index, op_index)) {
                        (Ok(WindowCall::Create { key }), Ok(k)) => key == k && key
                            < final(self).counts.cleanup_upper,
                        (Err(e), Err(text)) => e@ == text,
                        _ => false,
                    }
                },
                SteadyStateOperation::Read => {
                    &&& final(keys).rng == old(keys).after_pick()
                    &&& exists|pick: u32| #[trigger]
                        old(keys).picks(pick) && match r {
                            Ok(WindowCall::Read { key }) => key == if expects_missing(workload) {
                                old(keys).records + pick
                            } else {
                                pick as int
                            },
                            Err(e) => expects_missing(workload) && old(keys).records + pick
                                > u32::MAX && e@
                                == "missing-read key range exceeded u32 key space"@,
                            _ => false,
                        }
                },
                SteadyStateOperation::Update => {
                    &&& final(keys).rng == old(keys).after_pick()
                    &&& r matches Ok(WindowCall::Update { key }) && old(keys).picks(key) && key
                        < selector::at_least_one(old(keys).records)
                },
                SteadyStateOperation::Scan => {
                    &&& final(keys).rng == selector::uniform_state(
                        old(keys).rng,
                        old(keys).scan_starts(),
                    )
                    &&& r matches Ok(WindowCall::Scan { scan }) && old(keys).scans(scan)
                },
            },
    {
        match op {
            SteadyStateOperation::Create => {
                let key_index: u64 = match self.start_op_index.checked_add(op_index) {
                    Some(k) => k,
                    None => {
                        return Err(
                            Failure::new("sustained_ingest exceeded u64 key space".to_owned()),
                        );
                    },
                };
                if key_index > u32::MAX as u64 {
                    return Err(
                        Failure::new("sustained_ingest exceeded u32 key space".to_owned()),
                    );
                }
                if self.counts.cleanup_upper < key_index + 1 {
                    self.counts.cleanup_upper = key_index + 1;
                }
                Ok(WindowCall::Create { key: key_index as u32 })
            },
            SteadyStateOperation::Read => {
                if workload.expects_missing_reads() {
                    match keys.next_missing_key() {
                        Ok(key) => Ok(WindowCall::Read { key }),
                        Err(e) => Err(e),
                    }
                } else {
                    Ok(WindowCall::Read { key: keys.next_key() })
                }
            },
            SteadyStateOperation::Update => Ok(WindowCall::Update { key: keys.next_key() }),
            SteadyStateOperation::Scan => Ok(WindowCall::Scan { scan: keys.next_scan() }),
        }
    }

    fn answer_counts(&mut self, op: SteadyStateOperation, answer: &Answer)
        ensures
            *final(self) == (Window { counts: answered(old(self).counts, op, *answer), ..*old(self)
            }),
    {
        match answer {
            Answer::TimedOut => {},
            Answer::Succeeded => match op {
                SteadyStateOperation::Create => {
                    self.counts.creates = add_one(self.counts.creates);
                },
                SteadyStateOperation::Read => {
                    self.counts.read_hits = add_one(self.counts.read_hits);
                },
                SteadyStateOperation::Update => {
                    self.counts.updates = add_one(self.counts.updates);
                },
                SteadyStateOperation::Scan => {
                    self.counts.scans = add_one(self.counts.scans);
                },
            },
            Answer::Failed { .. } => {
                if op == SteadyStateOperation::Read {
                    self.counts.read_misses = add_one(self.counts.read_misses);
                }
            },
        }
    }

    /// Counts a failed operation and keeps the reason where it is the first.
    pub fn fail(&mut self, op: SteadyStateOperation, reason: String)
        ensures
            final(self).state() == old(self).state().failed_with(op, reason@),
    {
        self.counts.errors = add_one(self.counts.errors);
        if op == SteadyStateOperation::Scan {
            self.counts.scan_count_errors = add_one(self.counts.scan_count_errors);
        }
        if self.failure_reason.is_none() {
            self.failure_reason = Some(reason);
        }
    }

    fn count_second(&mut self, second: usize)
        requires
            second < usize::MAX,
        ensures
            final(self).per_second@ == counted_second(old(self).per_second@, second as int),
            final(self).counts == old(self).counts,
            final(self).failure_reason == old(self).failure_reason,
            final(self).sequence == old(self).sequence,
            final(self).start_op_index == old(self).start_op_index,
    {
        let ghost before = self.per_second@;
        while self.per_second.len() <= second
            invariant
                self.per_second@.len() >= before.len(),
                self.per_second@.len() <= second + 1 || self.per_second@.len() == before.len(),
                forall|i: int|
                    0 <= i < self.per_second@.len() ==> #[trigger] self.per_second@[i] == if i
                        < before.len() {
                        before[i]
                    } else {
                        0
                    },
                self.counts == old(self).counts,
                self.failure_reason == old(self).failure_reason,
                self.sequence == old(self).sequence,
                self.start_op_index == old(self).start_op_index,
            decreases second + 1 - self.per_second@.len(),
        {
            self.per_second.push(0);
        }
        let n: u64 = self.per_second[second];
        self.per_second.set(second, n.wrapping_add(1));
        assert(self.per_second@ =~= counted_second(before, second as int));
    }

    /// Counts what became of an operation, and tells whether the worker goes on. `micros` is how
    /// long the operation took, `second` the second of the window in which it started; both matter
    /// only where the window is recorded.
    pub fn settle(
        &mut self,
        recorder: &mut Recorder,
        config: &SteadyStateConfig,
        workload: SteadyStateWorkload,
        op: SteadyStateOperation,
        op_index: u64,
        key: u32,
        answer: Answer,
        record: bool,
        micros: u64,
        second: usize,
    ) -> (r: bool)
        requires
            second < usize::MAX,
        ensures
            r == (answer_error(workload, op, key, answer) is None),
            final(self).state() == old(self).state().settled(
                workload,
                op,
                key,
                answer,
                record,
                sampled(op_index, config.latency_sample_every),
                second as int,
            ),
            ({
                let sample = r && record && sampled(op_index, config.latency_sample_every);
                &&& !sample ==> *final(recorder) == *old(recorder)
                &&& sample && old(recorder)@.len() < u64::MAX ==> final(recorder)@ == old(
                    recorder,
                )@.insert(recorder::bin_floor(micros as nat) as u64)
            }),
    {
        self.answer_counts(op, &answer);
        let missing: bool = op == SteadyStateOperation::Read && workload.expects_missing_reads();
        let error: Option<String> = match answer {
            Answer::TimedOut => Some(cat3("steady-state ", workload.name(), " timed out")),
            Answer::Succeeded => if missing {
                Some(
                    cat4(
                        "steady-state ",
                        workload.name(),
                        " expected missing key ",
                        decimal_text(key as u128).as_str(),
                    ),
                )
            } else {
                None
            },
            Answer::Failed { reason } => if missing {
                None
            } else {
                Some(reason)
            },
        };
        if let Some(reason) = error {
            self.fail(op, reason);
            return false;
        }
        self.counts.completed = add_one(self.counts.completed);
        if record {
            let every: u64 = config.latency_sample_every;
            let sample: bool = if every == 0 {
                op_index == 0
            } else {
                op_index % every == 0
            };
            if sample {
                recorder.record(micros);
                self.counts.latency_samples = add_one(self.counts.latency_samples);
            }
            self.count_second(second);
        }
        true
    }
}

/// The figures of a measured window, computed by the caller from its latencies and counts.
pub struct RowFigures {
    pub ops_per_sec: Float64,
    pub per_second_windows: Vec<Float64>,
    pub p50_ms: Float64,
    pub p95_ms: Float64,
    pub p99_ms: Float64,
}

/// A measured result with its figures.
pub struct Measured<R> {
    pub result: R,
    pub figures: RowFigures,
}

/// What came of a window.
pub struct SteadyStateMeasurement<R> {
    pub completed: u64,
    pub read_hits: u64,
    pub read_misses: u64,
    pub updates: u64,
    pub creates: u64,
    pub scans: u64,
    pub errors: u64,
    pub scan_count_errors: u64,
    pub latency_samples: u64,
    pub cleanup_upper: u64,
    pub failure_reason: Option<String>,
    pub per_second_windows: Vec<u64>,
    pub result: Option<Measured<R>>,
}

impl<R> SteadyStateMeasurement<R> {
    /// The measurement of a window that all workers have left.
    pub fn of(window: Window, result: Option<Measured<R>>) -> (r: Self)
        ensures
            r.completed == window.counts.completed,
            r.read_hits == window.counts.read_hits,
            r.read_misses == window.counts.read_misses,
            r.updates == window.counts.updates,
            r.creates == window.counts.creates,
            r.scans == window.counts.scans,
            r.errors == window.counts.errors,
            r.scan_count_errors == window.counts.scan_count_errors,
            r.latency_samples == window.counts.latency_samples,
            r.cleanup_upper == window.counts.cleanup_upper,
            r.failure_reason == window.failure_reason,
            r.per_second_windows == window.per_second,
            r.result == result,
    {
        SteadyStateMeasurement {
            completed: window.counts.completed,
            read_hits: window.counts.read_hits,
            read_misses: window.counts.read_misses,
            updates: window.counts.updates,
            creates: window.counts.creates,
            scans: window.counts.scans,
            errors: window.counts.errors,
            scan_count_errors: window.counts.scan_count_errors,
            latency_samples: window.counts.latency_samples,
            cleanup_upper: window.counts.cleanup_upper,
            failure_reason: window.failure_reason,
            per_second_windows: window.per_second,
            result,
        }
    }

    /// The share of each kind among the counted operations.
    pub open spec fn mix(self) -> Seq<char> {
        workload::shares_text(
            self.creates as nat,
            (self.read_hits + self.read_misses) as nat,
            self.updates as nat,
            self.scans as nat,
        )
    }

    /// The operations that were observed, each kind with its share of them.
    pub fn observed_mix(&self) -> (r: String)
        ensures
            r@ == self.mix(),
    {
        observed_shares(
            self.creates as u128,
            self.read_hits as u128 + self.read_misses as u128,
            self.updates as u128,
            self.scans as u128,
        )
    }
}

/// How many of the given operations have the property.
pub open spec fn counting(done: Seq<u64>, p: spec_fn(u64) -> bool) -> nat
    decreases done.len(),
{
    if done.len() == 0 {
        0
    } else {
        counting(done.drop_last(), p) + if p(done.last()) {
            1nat
        } else {
            0nat
        }
    }
}

/// How many of the first `n` operations have the property.
pub open spec fn counting_below(n: nat, p: spec_fn(u64) -> bool) -> nat
    decreases n,
{
    if n == 0 {
        0
    } else {
        counting_below((n - 1) as nat, p) + if p((n - 1) as u64) {
            1nat
        } else {
            0nat
        }
    }
}

proof fn lemma_counting_remove(done: Seq<u64>, p: spec_fn(u64) -> bool, i: int)
    requires
        0 <= i < done.len(),
    ensures
        counting(done, p) == counting(done.remove(i), p) + if p(done[i]) {
            1nat
        } else {
            0nat
        },
    decreases done.len(),
{
    if i == done.len() - 1 {
        assert(done.remove(i) =~= done.drop_last());
    } else {
        lemma_counting_remove(done.drop_last(), p, i);
        assert(done.remove(i).drop_last() =~= done.drop_last().remove(i));
        assert(done.remove(i).last() == done.last());
    }
}

/// Whether the given operations are the first ones of a row, each once, in any order.
pub open spec fn is_prefix(done: Seq<u64>) -> bool {
    &&& done.no_duplicates()
    &&& forall|i: int| 0 <= i < done.len() ==> (#[trigger] done[i]) < done.len()
}

proof fn lemma_holds_last(done: Seq<u64>) -> (i: int)
    requires
        is_prefix(done),
        0 < done.len() <= u64::MAX,
    ensures
        0 <= i < done.len(),
        done[i] == done.len() - 1,
{
    let top = (done.len() - 1) as u64;
    if !done.contains(top) {
        let bound = vstd::set_lib::set_int_range(0, done.len() - 1);
        let ints = done.map_values(|x: u64| x as int);
        assert(ints.no_duplicates());
        ints.unique_seq_to_set();
        vstd::set_lib::lemma_int_range(0, done.len() - 1);
        assert(ints.to_set().subset_of(bound)) by {
            assert forall|x: int| ints.to_set().contains(x) implies bound.contains(x) by {
                let k = choose|k: int| 0 <= k < ints.len() && ints[k] == x;
                assert(done[k] < done.len());
                assert(done.contains(done[k]));
            }
        }
        vstd::set_lib::lemma_len_subset(ints.to_set(), bound);
        assert(false);
    }
    choose|k: int| 0 <= k < done.len() && done[k] == top
}

/// The order in which the first operations of a row are done does not change how many of them have
/// a property.
proof fn lemma_prefix_counting(done: Seq<u64>, p: spec_fn(u64) -> bool)
    requires
        is_prefix(done),
        done.len() <= u64::MAX,
    ensures
        counting(done, p) == counting_below(done.len(), p),
    decreases done.len(),
{
    if done.len() > 0 {
        let i = lemma_holds_last(done);
        let rest = done.remove(i);
        lemma_counting_remove(done, p, i);
        assert forall|a: int, b: int|
            0 <= a < rest.len() && 0 <= b < rest.len() && a != b implies rest[a] != rest[b] by {
            let a0 = if a < i {
                a
            } else {
                a + 1
            };
            let b0 = if b < i {
                b
            } else {
                b + 1
            };
            assert(rest[a] == done[a0] && rest[b] == done[b0]);
        }
        assert forall|a: int| 0 <= a < rest.len() implies (#[trigger] rest[a]) < rest.len() by {
            let a0 = if a < i {
                a
            } else {
                a + 1
            };
            assert(rest[a] == done[a0]);
            assert(done[a0] != done[i]);
        }
        lemma_prefix_counting(rest, p);
    }
}

/// The operations at which a row performs `op`.
pub open spec fn performs(
    config: SteadyStateConfig,
    w: SteadyStateWorkload,
    op: SteadyStateOperation,
) -> spec_fn(u64) -> bool {
    |i: u64| config.operation(w, i as nat) == op
}

proof fn lemma_occurrences_counted(
    config: SteadyStateConfig,
    w: SteadyStateWorkload,
    op: SteadyStateOperation,
    n: nat,
)
    requires
        n <= u64::MAX,
    ensures
        counting_below(n, performs(config, w, op)) == config.occurrences(w, op, n),
    decreases n,
{
    if n > 0 {
        lemma_occurrences_counted(config, w, op, (n - 1) as nat);
    }
}

/// Every n-th operation is sampled, from the first on.
proof fn lemma_samples_counted(n: nat, every: u64)
    requires
        every > 0,
        n <= u64::MAX,
    ensures
        counting_below(n, |i: u64| sampled(i, every)) == (n + every - 1) / (every as int),
    decreases n,
{
    let e = every as int;
    if n == 0 {
        assert((e - 1) / e == 0) by (nonlinear_arith)
            requires
                e > 0,
        ;
    } else {
        lemma_samples_counted((n - 1) as nat, every);
        let m = n - 1;
        assert((m + e - 1) / e + (if m % e == 0 {
            1int
        } else {
            0int
        }) == (m + e) / e) by {
            lemma_fundamental_div_mod(m, e);
            let q = m / e;
            let r = m % e;
            assert((m + e) / e == q + 1) by {
                lemma_div_plus_one(m, e);
            }
            if r == 0 {
                assert(m + e - 1 == e * q + (e - 1));
                lemma_fundamental_div_mod_converse(m + e - 1, e, q, e - 1);
            } else {
                assert(m + e - 1 == e * (q + 1) + (r - 1)) by (nonlinear_arith)
                    requires
                        m == e * q + r,
                ;
                lemma_fundamental_div_mod_converse(m + e - 1, e, q + 1, r - 1);
            }
        }
    }
}

/// Something that happens to a window while its workers run.
pub enum WindowStep {
    /// A worker takes the next operation.
    Claim,
    /// A worker works out what the operation asks of its client.
    Call { op_index: u64 },
    /// A worker gives the operation up.
    Fail { op_index: u64, reason: Seq<char> },
    /// A worker has the answer to the operation.
    Settle { op_index: u64, key: u32, answer: Answer, second: nat },
}

/// A window after the given steps, in the order in which they happened.
pub open spec fn after_steps(
    start: u64,
    config: SteadyStateConfig,
    w: SteadyStateWorkload,
    record: bool,
    steps: Seq<WindowStep>,
) -> WindowState
    decreases steps.len(),
{
    if steps.len() == 0 {
        WindowState::empty(start)
    } else {
        let before = after_steps(start, config, w, record, steps.drop_last());
        match steps.last() {
            WindowStep::Claim => before.claimed(),
            WindowStep::Call { op_index } => before.called(
                config.operation(w, op_index as nat),
                op_index,
            ),
            WindowStep::Fail { op_index, reason } => before.failed_with(
                config.operation(w, op_index as nat),
                reason,
            ),
            WindowStep::Settle { op_index, key, answer, second } => before.settled(
                w,
                config.operation(w, op_index as nat),
                key,
                answer,
                record,
                sampled(op_index, config.latency_sample_every),
                second as int,
            ),
        }
    }
}

/// How many operations were handed out.
pub open spec fn claims(steps: Seq<WindowStep>) -> nat
    decreases steps.len(),
{
    if steps.len() == 0 {
        0
    } else {
        claims(steps.drop_last()) + if steps.last() is Claim {
            1nat
        } else {
            0nat
        }
    }
}

/// The operations that ended, in the order in which they did.
pub open spec fn ended(steps: Seq<WindowStep>) -> Seq<u64>
    decreases steps.len(),
{
    if steps.len() == 0 {
        Seq::empty()
    } else {
        match steps.last() {
            WindowStep::Fail { op_index, .. } => ended(steps.drop_last()).push(op_index),
            WindowStep::Settle { op_index, .. } => ended(steps.drop_last()).push(op_index),
            _ => ended(steps.drop_last()),
        }
    }
}

/// Whether the workers keep to what they are handed: an operation is worked on only once it was
/// handed out, and ends once.
pub open spec fn orderly(steps: Seq<WindowStep>) -> bool
    decreases steps.len(),
{
    steps.len() == 0 || {
        let before = steps.drop_last();
        &&& orderly(before)
        &&& match steps.last() {
            WindowStep::Claim => true,
            WindowStep::Call { op_index } => op_index < claims(before),
            WindowStep::Fail { op_index, .. } => op_index < claims(before) && !ended(
                before,
            ).contains(op_index),
            WindowStep::Settle { op_index, .. } => op_index < claims(before) && !ended(
                before,
            ).contains(op_index),
        }
    }
}

/// Whether the workers have left the window: every operation that was handed out has ended.
pub open spec fn is_over(steps: Seq<WindowStep>) -> bool {
    &&& orderly(steps)
    &&& ended(steps).len() == claims(steps)
    &&& claims(steps) <= u64::MAX
}

proof fn lemma_ended(steps: Seq<WindowStep>)
    requires
        orderly(steps),
    ensures
        ended(steps).no_duplicates(),
        forall|i: int| 0 <= i < ended(steps).len() ==> (#[trigger] ended(steps)[i]) < claims(steps),
    decreases steps.len(),
{
    if steps.len() > 0 {
        lemma_ended(steps.drop_last());
    }
}

proof fn lemma_after_steps(
    start: u64,
    config: SteadyStateConfig,
    w: SteadyStateWorkload,
    record: bool,
    steps: Seq<WindowStep>,
)
    requires
        ended(steps).len() <= u64::MAX,
    ensures
        ({
            let s = after_steps(start, config, w, record, steps);
            let c = s.counts;
            let done = ended(steps);
            &&& claims(steps) <= u64::MAX ==> s.sequence == claims(steps)
            &&& c.completed + c.errors == done.len()
            &&& c.scan_count_errors <= c.errors
            &&& s.reason is None <==> c.errors == 0
            &&& record ==> all_seconds(s.seconds) == c.completed
            &&& !record ==> s.seconds.len() == 0
            &&& s.reason is None ==> {
                &&& c.creates == counting(done, performs(config, w, SteadyStateOperation::Create))
                &&& c.read_hits + c.read_misses == counting(
                    done,
                    performs(config, w, SteadyStateOperation::Read),
                )
                &&& c.updates == counting(done, performs(config, w, SteadyStateOperation::Update))
                &&& c.scans == counting(done, performs(config, w, SteadyStateOperation::Scan))
                &&& c.creates + c.read_hits + c.read_misses + c.updates + c.scans == done.len()
                &&& c.latency_samples == if record {
                    counting(done, |i: u64| sampled(i, config.latency_sample_every))
                } else {
                    0
                }
                &&& c.latency_samples <= done.len()
                &&& expects_missing(w) ==> c.read_hits == 0
                &&& !expects_missing(w) ==> c.read_misses == 0
            }
        }),
    decreases steps.len(),
{
    if steps.len() > 0 {
        let head = steps.drop_last();
        lemma_after_steps(start, config, w, record, head);
        let before = after_steps(start, config, w, record, head);
        match steps.last() {
            WindowStep::Claim => {},
            WindowStep::Call { .. } => {},
            WindowStep::Fail { .. } => {
                assert(ended(steps).drop_last() =~= ended(head));
            },
            WindowStep::Settle { second, .. } => {
                assert(ended(steps).drop_last() =~= ended(head));
                if record {
                    lemma_second_counted(before.seconds, second as int);
                }
            },
        }
    }
}

/// Every operation of a window ends once: it completes or it fails, and the window has a reason
/// exactly where one failed.
pub proof fn lemma_operations_end_once(
    start: u64,
    config: SteadyStateConfig,
    w: SteadyStateWorkload,
    record: bool,
    steps: Seq<WindowStep>,
)
    requires
        is_over(steps),
    ensures
        ({
            let s = after_steps(start, config, w, record, steps);
            &&& s.sequence == s.counts.completed + s.counts.errors
            &&& s.reason is None <==> s.counts.errors == 0
        }),
{
    lemma_after_steps(start, config, w, record, steps);
}

/// The seconds of a recorded window add up to its completed operations.
pub proof fn lemma_seconds_add_up(
    start: u64,
    config: SteadyStateConfig,
    w: SteadyStateWorkload,
    steps: Seq<WindowStep>,
)
    requires
        is_over(steps),
    ensures
        ({
            let s = after_steps(start, config, w, true, steps);
            all_seconds(s.seconds) == s.counts.completed
        }),
{
    lemma_after_steps(start, config, w, true, steps);
}

/// In a window without a failure, whatever the order in which the workers finish, each kind of
/// operation has been counted as often as it occurs in the schedule up to the number of completed
/// operations: the counts are those of the expected mix prefix.
pub proof fn lemma_window_follows_schedule(
    start: u64,
    config: SteadyStateConfig,
    w: SteadyStateWorkload,
    record: bool,
    steps: Seq<WindowStep>,
)
    requires
        is_over(steps),
        after_steps(start, config, w, record, steps).reason is None,
    ensures
        ({
            let s = after_steps(start, config, w, record, steps);
            let c = s.counts;
            let n = c.completed as nat;
            &&& c.completed == s.sequence
            &&& c.creates == config.occurrences(w, SteadyStateOperation::Create, n)
            &&& c.read_hits + c.read_misses == config.occurrences(w, SteadyStateOperation::Read, n)
            &&& c.updates == config.occurrences(w, SteadyStateOperation::Update, n)
            &&& c.scans == config.occurrences(w, SteadyStateOperation::Scan, n)
            &&& w != SteadyStateWorkload::Idle ==> workload::mix_text(
                c.creates as nat,
                (c.read_hits + c.read_misses) as nat,
                c.updates as nat,
                c.scans as nat,
            ) == config.prefix_mix(w, n)
        }),
{
    let done = ended(steps);
    lemma_ended(steps);
    lemma_after_steps(start, config, w, record, steps);
    lemma_prefix_counting(done, performs(config, w, SteadyStateOperation::Create));
    lemma_prefix_counting(done, performs(config, w, SteadyStateOperation::Read));
    lemma_prefix_counting(done, performs(config, w, SteadyStateOperation::Update));
    lemma_prefix_counting(done, performs(config, w, SteadyStateOperation::Scan));
    lemma_occurrences_counted(config, w, SteadyStateOperation::Create, done.len());
    lemma_occurrences_counted(config, w, SteadyStateOperation::Read, done.len());
    lemma_occurrences_counted(config, w, SteadyStateOperation::Update, done.len());
    lemma_occurrences_counted(config, w, SteadyStateOperation::Scan, done.len());
}

/// In a window without a failure every read did what the row expects of it: all hit, or all missed
/// in the row that reads missing keys; and no scan came up short.
pub proof fn lemma_reads_as_expected(
    start: u64,
    config: SteadyStateConfig,
    w: SteadyStateWorkload,
    record: bool,
    steps: Seq<WindowStep>,
)
    requires
        is_over(steps),
        after_steps(start, config, w, record, steps).reason is None,
    ensures
        ({
            let c = after_steps(start, config, w, record, steps).counts;
            &&& c.errors == 0
            &&& c.scan_count_errors == 0
            &&& expects_missing(w) ==> c.read_hits == 0
            &&& !expects_missing(w) ==> c.read_misses == 0
        }),
{
    lemma_after_steps(start, config, w, record, steps);
}

/// The ingest row, where it runs without a failure, created as many records as it completed
/// operations.
pub proof fn lemma_ingest_creates_counted(
    start: u64,
    config: SteadyStateConfig,
    record: bool,
    steps: Seq<WindowStep>,
)
    requires
        is_over(steps),
        config.schedule() matches Some(s) ==> s.len() > 0
            && SteadyStateWorkload::SustainedIngest.compatible(s),
        after_steps(start, config, SteadyStateWorkload::SustainedIngest, record, steps).reason
            is None,
    ensures
        ({
            let c = after_steps(
                start,
                config,
                SteadyStateWorkload::SustainedIngest,
                record,
                steps,
            ).counts;
            c.creates == c.completed
        }),
{
    let w = SteadyStateWorkload::SustainedIngest;
    lemma_after_steps(start, config, w, record, steps);
    assert forall|i: u64| #[trigger] performs(config, w, SteadyStateOperation::Create)(i) by {
        match config.schedule() {
            Some(s) => {
                assert(w.admits(s[(i as nat % s.len()) as int]));
            },
            None => {},
        }
    }
    lemma_counting_all(ended(steps), performs(config, w, SteadyStateOperation::Create));
}

proof fn lemma_counting_all(done: Seq<u64>, p: spec_fn(u64) -> bool)
    requires
        forall|i: u64| #[trigger] p(i),
    ensures
        counting(done, p) == done.len(),
    decreases done.len(),
{
    if done.len() > 0 {
        lemma_counting_all(done.drop_last(), p);
    }
}

/// A recorded window without a failure samples every n-th of its operations, from the first on; so
/// one that completed anything has a sample.
pub proof fn lemma_latency_samples(
    start: u64,
    config: SteadyStateConfig,
    w: SteadyStateWorkload,
    steps: Seq<WindowStep>,
)
    requires
        is_over(steps),
        config.latency_sample_every > 0,
        after_steps(start, config, w, true, steps).reason is None,
    ensures
        ({
            let c = after_steps(start, config, w, true, steps).counts;
            &&& c.latency_samples == (c.completed + config.latency_sample_every - 1)
                / (config.latency_sample_every as int)
            &&& c.completed > 0 ==> c.latency_samples > 0
        }),
{
    let every = config.latency_sample_every;
    let done = ended(steps);
    lemma_ended(steps);
    lemma_after_steps(start, config, w, true, steps);
    lemma_prefix_counting(done, |i: u64| sampled(i, every));
    lemma_samples_counted(done.len(), every);
    if done.len() > 0 {
        assert((done.len() + every - 1) / (every as int) >= 1) by {
            lemma_div_is_ordered(every as int, done.len() + every - 1, every as int);
            lemma_div_basics_3(every as int);
        }
    }
}

/// The operations of all seconds of a window.
pub open spec fn all_seconds(seconds: Seq<u64>) -> nat
    decreases seconds.len(),
{
    if seconds.len() == 0 {
        0
    } else {
        all_seconds(seconds.drop_last()) + seconds.last() as nat
    }
}

proof fn lemma_all_seconds_update(seconds: Seq<u64>, i: int, v: u64)
    requires
        0 <= i < seconds.len(),
    ensures
        all_seconds(seconds.update(i, v)) == all_seconds(seconds) - seconds[i] + v,
        seconds[i] <= all_seconds(seconds),
    decreases seconds.len(),
{
    if i < seconds.len() - 1 {
        lemma_all_seconds_update(seconds.drop_last(), i, v);
        assert(seconds.update(i, v).drop_last() =~= seconds.drop_last().update(i, v));
    } else {
        assert(seconds.update(i, v).drop_last() =~= seconds.drop_last());
    }
}

proof fn lemma_all_seconds_idle(seconds: Seq<u64>, n: nat)
    ensures
        all_seconds(seconds + Seq::new(n, |i: int| 0u64)) == all_seconds(seconds),
    decreases n,
{
    let longer = seconds + Seq::new(n, |i: int| 0u64);
    if n == 0 {
        assert(longer =~= seconds);
    } else {
        lemma_all_seconds_idle(seconds, (n - 1) as nat);
        assert(longer.drop_last() =~= seconds + Seq::new((n - 1) as nat, |i: int| 0u64));
    }
}

proof fn lemma_second_counted(seconds: Seq<u64>, second: int)
    requires
        second >= 0,
        all_seconds(seconds) < u64::MAX,
    ensures
        all_seconds(counted_second(seconds, second)) == all_seconds(seconds) + 1,
{
    if second < seconds.len() {
        lemma_all_seconds_update(seconds, second, 0);
        let more = (seconds[second] + 1) as u64;
        lemma_all_seconds_update(seconds, second, more);
        assert(counted_second(seconds, second) =~= seconds.update(second, more));
    } else {
        let n = (second + 1 - seconds.len()) as nat;
        let longer = seconds + Seq::new(n, |i: int| 0u64);
        lemma_all_seconds_idle(seconds, n);
        lemma_all_seconds_update(longer, second, 1);
        assert(counted_second(seconds, second) =~= longer.update(second, 1));
    }
}

} // verus!
