//! A steady-state window: what an answer means, and what is counted of it.
use crate::window;
use crate::window::{Answer, Window, WindowState};
use crate::workload::{SteadyStateOperation, SteadyStateWorkload};
use vstd::prelude::*;

verus! {

/// Whether the operation is a read that is meant to miss.
pub open spec fn missing_read(w: SteadyStateWorkload, op: SteadyStateOperation) -> bool {
    w == SteadyStateWorkload::PointReadMissingInRange && op == SteadyStateOperation::Read
}

/// An operation completes where it succeeds, and fails where its answer is an error or comes too
/// late; a read that is meant to miss is the other way round, but for coming too late. The reason is
/// that of the client, or names the row and, for an unexpected hit, the key.
pub proof fn lemma_answer_judged(
    w: SteadyStateWorkload,
    op: SteadyStateOperation,
    key: u32,
    answer: Answer,
)
    ensures
        window::answer_error(w, op, key, answer) is None <==> {
            ||| answer is Succeeded && !missing_read(w, op)
            ||| answer is Failed && missing_read(w, op)
        },
        answer is TimedOut ==> window::answer_error(w, op, key, answer) == Some(
            "steady-state "@ + w.name_text() + " timed out"@,
        ),
        answer is Succeeded && missing_read(w, op) ==> window::answer_error(w, op, key, answer)
            == Some(
            "steady-state "@ + w.name_text() + " expected missing key "@ + crate::text::decimal(
                key as nat,
            ),
        ),
        answer matches Answer::Failed { reason } ==> (!missing_read(w, op) ==> window::answer_error(
            w,
            op,
            key,
            answer,
        ) == Some(reason@)),
{
}

/// An operation is counted under its own kind: a success as a create, a hit, an update or a scan, a
/// failed read as a miss; nothing else changes but the completed operations, the errors and the
/// samples.
pub proof fn lemma_kinds_counted(
    s: WindowState,
    w: SteadyStateWorkload,
    op: SteadyStateOperation,
    key: u32,
    answer: Answer,
    record: bool,
    sample: bool,
    second: int,
)
    requires
        s.counts.creates < u64::MAX,
        s.counts.read_hits < u64::MAX,
        s.counts.read_misses < u64::MAX,
        s.counts.updates < u64::MAX,
        s.counts.scans < u64::MAX,
    ensures
        ({
            let a = s.counts;
            let b = s.settled(w, op, key, answer, record, sample, second).counts;
            &&& b.creates == a.creates + one_if(answer is Succeeded && op is Create)
            &&& b.read_hits == a.read_hits + one_if(answer is Succeeded && op is Read)
            &&& b.read_misses == a.read_misses + one_if(answer is Failed && op is Read)
            &&& b.updates == a.updates + one_if(answer is Succeeded && op is Update)
            &&& b.scans == a.scans + one_if(answer is Succeeded && op is Scan)
            &&& b.cleanup_upper == a.cleanup_upper
        }),
{
}

pub open spec fn one_if(condition: bool) -> int {
    if condition {
        1
    } else {
        0
    }
}

/// A settled operation is completed or an error, never both. An error of a scan also counts as one
/// of a scan; a completed operation is sampled where the window is recorded and the operation is one
/// of those to sample; and an operation of a recorded window counts in its second.
pub proof fn lemma_outcome_counted(
    s: WindowState,
    w: SteadyStateWorkload,
    op: SteadyStateOperation,
    key: u32,
    answer: Answer,
    record: bool,
    sample: bool,
    second: int,
)
    requires
        s.counts.completed < u64::MAX,
        s.counts.errors < u64::MAX,
        s.counts.scan_count_errors < u64::MAX,
        s.counts.latency_samples < u64::MAX,
    ensures
        ({
            let after = s.settled(w, op, key, answer, record, sample, second);
            let a = s.counts;
            let b = after.counts;
            let fails = answer is TimedOut || (answer is Failed && !missing_read(w, op)) || (
            answer is Succeeded && missing_read(w, op));
            &&& b.completed == a.completed + one_if(!fails)
            &&& b.errors == a.errors + one_if(fails)
            &&& b.scan_count_errors == a.scan_count_errors + one_if(fails && op is Scan)
            &&& b.latency_samples == a.latency_samples + one_if(!fails && record && sample)
            &&& s.reason is Some ==> after.reason == s.reason
            &&& after.reason is Some <==> s.reason is Some || fails
            &&& after.start == s.start
            &&& after.sequence == s.sequence
            &&& fails || !record ==> after.seconds == s.seconds
            &&& !fails && record ==> after.seconds == window::counted_second(s.seconds, second)
        }),
{
}

/// To give an operation up counts one error and nothing else; the first reason stays.
pub proof fn lemma_given_up(s: WindowState, op: SteadyStateOperation, reason: Seq<char>)
    requires
        s.counts.errors < u64::MAX,
        s.counts.scan_count_errors < u64::MAX,
    ensures
        ({
            let after = s.failed_with(op, reason);
            let a = s.counts;
            let b = after.counts;
            &&& b.errors == a.errors + 1
            &&& b.scan_count_errors == a.scan_count_errors + one_if(op is Scan)
            &&& b.completed == a.completed && b.creates == a.creates && b.updates == a.updates
            &&& b.read_hits == a.read_hits && b.read_misses == a.read_misses && b.scans == a.scans
            &&& b.latency_samples == a.latency_samples && b.cleanup_upper == a.cleanup_upper
            &&& after.reason == if s.reason is Some {
                s.reason
            } else {
                Some(reason)
            }
            &&& after.seconds == s.seconds && after.sequence == s.sequence && after.start == s.start
        }),
{
}

/// An operation counts in the second in which it started and in no other; seconds in which nothing
/// started count nothing.
pub proof fn lemma_second_counts_one(seconds: Seq<u64>, second: int)
    requires
        0 <= second,
        second < seconds.len() ==> seconds[second] < u64::MAX,
    ensures
        ({
            let after = window::counted_second(seconds, second);
            &&& second < after.len()
            &&& after.len() == if seconds.len() > second {
                seconds.len() as int
            } else {
                second + 1
            }
            &&& forall|i: int|
                0 <= i < after.len() ==> (#[trigger] after[i]) == (if i < seconds.len() {
                    seconds[i] as int
                } else {
                    0
                }) + one_if(i == second)
        }),
{
}

/// The records that a window creates follow one another from its first key on: no two operations
/// create the same record, and a later operation creates a later one. It is refused only beyond the
/// last key.
pub proof fn lemma_created_in_order(start: u64, op_index: u64, later: u64)
    requires
        op_index < later,
    ensures
        start + op_index <= u32::MAX <==> window::created_key(start, op_index) is Ok,
        window::created_key(start, op_index) matches Ok(key) ==> key == start + op_index,
        (window::created_key(start, op_index) matches Ok(key) && (window::created_key(
            start,
            later,
        ) matches Ok(next) ==> next - key == later - op_index)) || window::created_key(
            start,
            op_index,
        ) is Err,
{
}

/// What a window is to clean up ends above every record that it was asked to create, and is not
/// moved by anything else.
pub proof fn lemma_cleanup_covers(s: WindowState, op: SteadyStateOperation, op_index: u64)
    ensures
        ({
            let before = s.counts.cleanup_upper;
            let after = s.called(op, op_index);
            let creates = op is Create && s.start + op_index <= u32::MAX;
            &&& after.counts.cleanup_upper == if creates && before <= s.start + op_index {
                s.start + op_index + 1
            } else {
                before as int
            }
            &&& after.reason == s.reason && after.seconds == s.seconds && after.start == s.start
                && after.sequence == s.sequence
            &&& after.counts.completed == s.counts.completed && after.counts.errors
                == s.counts.errors && after.counts.creates == s.counts.creates
                && after.counts.read_hits == s.counts.read_hits && after.counts.read_misses
                == s.counts.read_misses && after.counts.updates == s.counts.updates
                && after.counts.scans == s.counts.scans && after.counts.scan_count_errors
                == s.counts.scan_count_errors && after.counts.latency_samples
                == s.counts.latency_samples
        }),
{
}

/// The operations are handed out one by one.
pub proof fn lemma_handed_out(s: WindowState)
    requires
        s.sequence < u64::MAX,
    ensures
        s.claimed().sequence == s.sequence + 1,
        s.claimed().counts == s.counts,
        s.claimed().reason == s.reason,
        s.claimed().seconds == s.seconds,
        s.claimed().start == s.start,
{
}

/// The sampled operations are the multiples of the sampling distance; without one, the first alone.
pub proof fn lemma_sampled_operations(op_index: u64, every: u64)
    ensures
        every > 0 ==> (window::sampled(op_index, every) <==> exists|k: int|
            op_index == #[trigger] (k * every)),
        every == 0 ==> (window::sampled(op_index, every) <==> op_index == 0),
{
    if every > 0 {
        vstd::arithmetic::div_mod::lemma_fundamental_div_mod(op_index as int, every as int);
        if window::sampled(op_index, every) {
            let k = op_index as int / every as int;
            vstd::arithmetic::mul::lemma_mul_is_commutative(k, every as int);
            assert(op_index == k * every);
        }
        if exists|k: int| op_index == #[trigger] (k * every) {
            let k = choose|k: int| op_index == #[trigger] (k * every);
            vstd::arithmetic::div_mod::lemma_mod_multiples_basic(k, every as int);
        }
    }
}

/// A window begins empty: nothing is counted, handed out or failed, and nothing is to be cleaned up
/// beyond where it starts.
pub proof fn lemma_window_begins_empty(start: u64)
    ensures
        ({
            let s = WindowState::empty(start);
            let c = s.counts;
            &&& s.start == start && s.sequence == 0 && s.reason is None && s.seconds.len() == 0
            &&& c.completed == 0 && c.creates == 0 && c.read_hits == 0 && c.read_misses == 0
            &&& c.updates == 0 && c.scans == 0 && c.errors == 0 && c.scan_count_errors == 0
            &&& c.latency_samples == 0 && c.cleanup_upper == start
        }),
{
}

/// What a window has counted stands in its own fields.
pub proof fn lemma_window_shows(window: Window)
    ensures
        window.state().start == window.start_op_index,
        window.state().sequence == window.sequence,
        window.state().counts == window.counts,
        window.state().seconds == window.per_second@,
        window.failure_reason is None <==> window.state().reason is None,
        window.failure_reason matches Some(reason) ==> window.state().reason == Some(reason@),
{
}

} // verus!
