//! Steady-state artifacts: the rows that the steady-state gate reads, and what makes a row valid.
use crate::binary64::Float64;
use crate::failure::Failure;
use crate::figure;
use crate::figure::{add_note, quoted, Figure};
use crate::text;
use crate::text::{cat3, cat4, same_text};
use vstd::prelude::*;

verus! {

/// A JSON number: an integer, or a binary fraction.
#[derive(Clone, Copy, Debug)]
pub enum JsonNumber {
    Positive { natural: u64 },
    Negative { integer: i64 },
    Fraction { fraction: Float64 },
}

/// A JSON value; the members of an object are in the order of their keys.
pub enum JsonValue {
    Null,
    Truth { truth: bool },
    Number { number: JsonNumber },
    Text { text: String },
    Array { items: Vec<JsonValue> },
    Object { members: Vec<Member> },
}

/// A member of a JSON object.
pub struct Member {
    pub key: String,
    pub value: JsonValue,
}

impl JsonNumber {
    pub open spec fn equals(self, other: JsonNumber) -> bool {
        match (self, other) {
            (
                JsonNumber::Positive { natural: a },
                JsonNumber::Positive { natural: b },
            ) => a == b,
            (
                JsonNumber::Negative { integer: a },
                JsonNumber::Negative { integer: b },
            ) => a == b,
            (
                JsonNumber::Fraction { fraction: a },
                JsonNumber::Fraction { fraction: b },
            ) => a.equals(b),
            _ => false,
        }
    }

    pub fn same(self, other: JsonNumber) -> (r: bool)
        ensures
            r == self.equals(other),
    {
        match (self, other) {
            (
                JsonNumber::Positive { natural: a },
                JsonNumber::Positive { natural: b },
            ) => a == b,
            (
                JsonNumber::Negative { integer: a },
                JsonNumber::Negative { integer: b },
            ) => a == b,
            (
                JsonNumber::Fraction { fraction: a },
                JsonNumber::Fraction { fraction: b },
            ) => a.same(b),
            _ => false,
        }
    }
}

impl JsonValue {
    /// Whether two values are equal; numbers by value, anything else by its parts.
    pub open spec fn equals(self, other: JsonValue) -> bool
        decreases self,
    {
        match (self, other) {
            (JsonValue::Null, JsonValue::Null) => true,
            (JsonValue::Truth { truth: a }, JsonValue::Truth { truth: b }) => a == b,
            (JsonValue::Number { number: a }, JsonValue::Number { number: b }) => a.equals(b),
            (JsonValue::Text { text: a }, JsonValue::Text { text: b }) => a@ == b@,
            (JsonValue::Array { items: a }, JsonValue::Array { items: b }) => {
                &&& a@.len() == b@.len()
                &&& forall|i: int| 0 <= i < a@.len() ==> (#[trigger] a@[i]).equals(b@[i])
            },
            (JsonValue::Object { members: a }, JsonValue::Object { members: b }) => {
                &&& a@.len() == b@.len()
                &&& forall|i: int|
                    0 <= i < a@.len() ==> (#[trigger] a@[i]).key@ == b@[i].key@
                        && a@[i].value.equals(b@[i].value)
            },
            _ => false,
        }
    }

    /// Whether two values are equal.
    pub fn same(&self, other: &JsonValue) -> (r: bool)
        ensures
            r == self.equals(*other),
        decreases self,
    {
        match (self, other) {
            (JsonValue::Null, JsonValue::Null) => true,
            (JsonValue::Truth { truth: a }, JsonValue::Truth { truth: b }) => *a == *b,
            (JsonValue::Number { number: a }, JsonValue::Number { number: b }) => a.same(*b),
            (JsonValue::Text { text: a }, JsonValue::Text { text: b }) => same_text(
                a.as_str(),
                b.as_str(),
            ),
            (JsonValue::Array { items: a }, JsonValue::Array { items: b }) => {
                if a.len() != b.len() {
                    return false;
                }
                let mut i: usize = 0;
                #[verifier::loop_isolation(false)]
                while i < a.len()
                    invariant
                        i <= a@.len() == b@.len(),
                        forall|k: int| 0 <= k < i ==> (#[trigger] a@[k]).equals(b@[k]),
                    decreases a@.len() - i,
                {
                    if !a[i].same(&b[i]) {
                        assert(!a@[i as int].equals(b@[i as int]));
                        return false;
                    }
                    i = i + 1;
                }
                true
            },
            (JsonValue::Object { members: a }, JsonValue::Object { members: b }) => {
                if a.len() != b.len() {
                    return false;
                }
                let mut i: usize = 0;
                #[verifier::loop_isolation(false)]
                while i < a.len()
                    invariant
                        i <= a@.len() == b@.len(),
                        forall|k: int|
                            0 <= k < i ==> (#[trigger] a@[k]).key@ == b@[k].key@
                                && a@[k].value.equals(b@[k].value),
                    decreases a@.len() - i,
                {
                    if !same_text(a[i].key.as_str(), b[i].key.as_str()) {
                        assert(a@[i as int].key@ != b@[i as int].key@);
                        return false;
                    }
                    if !a[i].value.same(&b[i].value) {
                        assert(!a@[i as int].value.equals(b@[i as int].value));
                        return false;
                    }
                    i = i + 1;
                }
                true
            },
            _ => false,
        }
    }

    pub open spec fn text(self) -> Option<Seq<char>> {
        match self {
            JsonValue::Text { text } => Some(text@),
            _ => None,
        }
    }

    /// The text of a value that is one.
    pub fn as_text(&self) -> (r: Option<&str>)
        ensures
            match (r, self.text()) {
                (Some(a), Some(b)) => a@ == b,
                (None, None) => true,
                _ => false,
            },
    {
        match self {
            JsonValue::Text { text } => Some(text.as_str()),
            _ => None,
        }
    }
}

/// What a row was asked to do.
pub struct SteadyStateTask {
    pub records: u32,
    pub clients: u32,
    pub threads: u32,
    pub warmup_secs: u64,
    pub measurement_secs: u64,
    pub latency_sample_every: u64,
    pub seed: u64,
    pub worker_seed_derivation: String,
    pub operation_mix: String,
    pub operation_mix_period: u32,
    pub key_selection: String,
    pub zipfian_exponent: Float64,
}

pub struct SteadyStatePhase {
    pub elapsed_ms: Float64,
    pub status: String,
}

pub struct SteadyStatePhases {
    pub prepare: SteadyStatePhase,
    pub warmup: SteadyStatePhase,
    pub measure: SteadyStatePhase,
    pub drain: SteadyStatePhase,
    pub cleanup: SteadyStatePhase,
}

pub struct SteadyStateThroughput {
    pub completed_operations: u64,
    pub ops_per_sec: Figure,
    pub per_second_windows: Vec<Float64>,
}

pub struct SteadyStateLatency {
    pub sample_count: u64,
    pub p50_ms: Float64,
    pub p95_ms: Figure,
    pub p99_ms: Figure,
}

pub struct SteadyStateValidation {
    pub errors: u64,
    pub read_hits: u64,
    pub read_misses: u64,
    pub updates: u64,
    pub scan_count_errors: u64,
    pub observed_mix: String,
    pub expected_mix_prefix: String,
}

pub struct SteadyStateDrain {
    pub elapsed_ms: Float64,
    pub timed_out: bool,
}

/// A row of an artifact.
pub struct SteadyStateRow {
    pub name: String,
    pub suite: String,
    pub database: JsonValue,
    pub status: String,
    pub unsupported_reason: Option<String>,
    pub failure_reason: Option<String>,
    pub sync: bool,
    pub task: SteadyStateTask,
    pub phases: SteadyStatePhases,
    pub throughput: Option<SteadyStateThroughput>,
    pub latency: Option<SteadyStateLatency>,
    pub validation: Option<SteadyStateValidation>,
    pub drain: Option<SteadyStateDrain>,
}

/// The rows of an artifact; no name occurs twice.
pub struct SteadyStateRows {
    pub rows: Vec<SteadyStateRow>,
}

pub open spec fn names(rows: Seq<SteadyStateRow>) -> Seq<Seq<char>> {
    Seq::new(rows.len(), |i: int| rows[i].name@)
}

impl SteadyStateRows {
    pub open spec fn wf(self) -> bool {
        names(self.rows@).no_duplicates()
    }
}

/// The first of the first `n` names that an earlier row has.
pub open spec fn first_repeated(names: Seq<Seq<char>>, n: nat) -> Option<Seq<char>>
    decreases n,
{
    if n == 0 {
        None
    } else {
        match first_repeated(names, (n - 1) as nat) {
            Some(name) => Some(name),
            None => if names.take(n - 1).contains(names[n - 1]) {
                Some(names[n - 1])
            } else {
                None
            },
        }
    }
}

proof fn lemma_first_repeated(names: Seq<Seq<char>>, k: nat, n: nat)
    requires
        k <= n,
        first_repeated(names, k) is Some,
    ensures
        first_repeated(names, n) == first_repeated(names, k),
    decreases n,
{
    if k < n {
        lemma_first_repeated(names, k, (n - 1) as nat);
    }
}

pub open spec fn repeated_row(name: Seq<char>) -> Seq<char> {
    "duplicate steady-state row "@ + figure::quoted_text(name) + " found"@
}

/// Takes the rows of an artifact; a name that occurs twice is refused.
#[verifier::loop_isolation(false)]
pub fn collect_steady_state_rows(rows: Vec<SteadyStateRow>) -> (r: Result<SteadyStateRows, Failure>)
    ensures
        match (r, first_repeated(names(rows@), rows@.len())) {
            (Ok(all), None) => all.rows == rows && all.wf(),
            (Err(e), Some(name)) => e@ == repeated_row(name),
            _ => false,
        },
{
    let ghost all = names(rows@);
    let mut i: usize = 0;
    while i < rows.len()
        invariant
            i <= rows@.len(),
            first_repeated(all, i as nat) is None,
            all.take(i as int).no_duplicates(),
        decreases rows@.len() - i,
    {
        let mut k: usize = 0;
        while k < i
            invariant
                k <= i < rows@.len(),
                forall|j: int| 0 <= j < k ==> #[trigger] all[j] != all[i as int],
            decreases i - k,
        {
            if same_text(rows[k].name.as_str(), rows[i].name.as_str()) {
                proof {
                    assert(all.take(i as int)[k as int] == all[i as int]);
                    assert(all.take(i as int).contains(all[i as int]));
                    assert(first_repeated(all, (i + 1) as nat) == Some(all[i as int]));
                    lemma_first_repeated(all, (i + 1) as nat, all.len());
                }
                return Err(
                    Failure::new(
                        cat3(
                            "duplicate steady-state row ",
                            quoted(rows[i].name.as_str()).as_str(),
                            " found",
                        ),
                    ),
                );
            }
            k = k + 1;
        }
        proof {
            if all.take(i as int).contains(all[i as int]) {
                let j = choose|j: int| 0 <= j < i && all.take(i as int)[j] == all[i as int];
                assert(all[j] == all[i as int]);
            }
            assert(all.take(i + 1) =~= all.take(i as int).push(all[i as int]));
        }
        i = i + 1;
    }
    assert(all.take(i as int) =~= all);
    Ok(SteadyStateRows { rows })
}

/// The first of the first `n` rows with the name.
pub open spec fn named(rows: Seq<SteadyStateRow>, name: Seq<char>, n: nat) -> Option<int>
    decreases n,
{
    if n == 0 {
        None
    } else {
        match named(rows, name, (n - 1) as nat) {
            Some(i) => Some(i),
            None => if rows[n - 1].name@ == name {
                Some(n - 1)
            } else {
                None
            },
        }
    }
}

pub open spec fn missing_steady_state_row(name: Seq<char>, source: Seq<char>) -> Seq<char> {
    "missing steady-state row "@ + figure::quoted_text(name) + " in "@ + source + " JSON"@
}

/// The row of an artifact with the given name.
pub fn required_steady_state_row<'a>(all: &'a SteadyStateRows, row: &str, source: &str) -> (r:
    Result<&'a SteadyStateRow, Failure>)
    ensures
        match (r, named(all.rows@, row@, all.rows@.len())) {
            (Ok(found), Some(i)) => 0 <= i < all.rows@.len() && *found == all.rows@[i]
                && found.name@ == row@,
            (Err(e), None) => e@ == missing_steady_state_row(row@, source@),
            _ => false,
        },
{
    let mut found: Option<usize> = None;
    let mut i: usize = 0;
    while i < all.rows.len()
        invariant
            i <= all.rows@.len(),
            match (found, named(all.rows@, row@, i as nat)) {
                (Some(a), Some(b)) => a == b && a < i && all.rows@[a as int].name@ == row@,
                (None, None) => true,
                _ => false,
            },
        decreases all.rows@.len() - i,
    {
        if found.is_none() && same_text(all.rows[i].name.as_str(), row) {
            found = Some(i);
        }
        i = i + 1;
    }
    match found {
        Some(k) => Ok(&all.rows[k]),
        None => {
            let head: String = cat3("missing steady-state row ", quoted(row).as_str(), " in ");
            Err(Failure::new(cat3(head.as_str(), source, " JSON")))
        },
    }
}

/// A finding about a row of an artifact.
pub open spec fn says(source: Seq<char>, row: Seq<char>, finding: Seq<char>) -> Seq<char> {
    source + " "@ + row + finding
}

pub(crate) fn said(source: &str, row: &str, finding: &str) -> (r: String)
    ensures
        r@ == says(source@, row@, finding@),
{
    cat4(source, " ", row, finding)
}

pub open spec fn task_failures(row: Seq<char>, task: SteadyStateTask, source: Seq<char>) -> Seq<
    Seq<char>,
> {
    figure::note(task.records == 0, says(source, row, " has zero records"@)) + figure::note(
        task.clients == 0 || task.threads == 0,
        says(source, row, " has invalid concurrency"@),
    ) + figure::note(
        task.measurement_secs == 0,
        says(source, row, " has zero measurement duration"@),
    ) + figure::note(
        task.worker_seed_derivation@.len() == 0 || task.operation_mix@.len() == 0
            || task.key_selection@.len() == 0,
        says(source, row, " is missing task metadata"@),
    ) + figure::note(
        task.operation_mix_period == 0,
        says(source, row, " has zero operation mix period"@),
    ) + figure::note(
        task.zipfian_exponent.invalid_quantity_spec(),
        says(source, row, " has invalid Zipfian exponent"@),
    )
}

pub(crate) fn blank(s: &String) -> (r: bool)
    ensures
        r == (s@.len() == 0),
{
    s.as_str().unicode_len() == 0
}

/// Finds what is wrong with the task of a row.
pub fn validate_steady_state_task(
    row_name: &str,
    task: &SteadyStateTask,
    source: &str,
    failures: &mut Vec<String>,
)
    ensures
        text::texts(final(failures)@) == text::texts(old(failures)@) + task_failures(
            row_name@,
            *task,
            source@,
        ),
{
    add_note(failures, task.records == 0, said(source, row_name, " has zero records"));
    add_note(
        failures,
        task.clients == 0 || task.threads == 0,
        said(source, row_name, " has invalid concurrency"),
    );
    add_note(
        failures,
        task.measurement_secs == 0,
        said(source, row_name, " has zero measurement duration"),
    );
    add_note(
        failures,
        blank(&task.worker_seed_derivation) || blank(&task.operation_mix) || blank(
            &task.key_selection,
        ),
        said(source, row_name, " is missing task metadata"),
    );
    add_note(
        failures,
        task.operation_mix_period == 0,
        said(source, row_name, " has zero operation mix period"),
    );
    add_note(
        failures,
        task.zipfian_exponent.invalid_quantity(),
        said(source, row_name, " has invalid Zipfian exponent"),
    );
    assert(text::texts(failures@) =~= text::texts(old(failures)@) + task_failures(
        row_name@,
        *task,
        source@,
    ));
}

pub open spec fn known_status(status: Seq<char>) -> bool {
    status == "completed"@ || status == "unsupported"@ || status == "failed"@
}

pub open spec fn phase_failures(
    row: Seq<char>,
    source: Seq<char>,
    row_status: Seq<char>,
    phase_name: Seq<char>,
    phase: SteadyStatePhase,
) -> Seq<Seq<char>> {
    figure::note(
        phase.elapsed_ms.invalid_quantity_spec(),
        says(source, row, " has invalid "@) + phase_name + " phase time"@,
    ) + figure::note(
        !known_status(phase.status@),
        says(source, row, " has invalid "@) + phase_name + " phase status "@
            + figure::quoted_text(phase.status@),
    ) + figure::note(
        row_status == "completed"@ && phase.status@ != "completed"@,
        says(source, row, " completed row has non-completed "@) + phase_name + " phase"@,
    )
}

fn validate_phase(
    row_name: &str,
    source: &str,
    row_status: &str,
    phase_name: &str,
    phase: &SteadyStatePhase,
    failures: &mut Vec<String>,
)
    ensures
        text::texts(final(failures)@) == text::texts(old(failures)@) + phase_failures(
            row_name@,
            source@,
            row_status@,
            phase_name@,
            *phase,
        ),
{
    let status: &str = phase.status.as_str();
    let completed: bool = same_text(status, "completed");
    let known: bool = completed || same_text(status, "unsupported") || same_text(status, "failed");
    let invalid: String = said(source, row_name, " has invalid ");
    add_note(
        failures,
        phase.elapsed_ms.invalid_quantity(),
        cat3(invalid.as_str(), phase_name, " phase time"),
    );
    add_note(
        failures,
        !known,
        cat4(invalid.as_str(), phase_name, " phase status ", quoted(status).as_str()),
    );
    add_note(
        failures,
        same_text(row_status, "completed") && !completed,
        cat3(
            said(source, row_name, " completed row has non-completed ").as_str(),
            phase_name,
            " phase",
        ),
    );
    assert(text::texts(failures@) =~= text::texts(old(failures)@) + phase_failures(
        row_name@,
        source@,
        row_status@,
        phase_name@,
        *phase,
    ));
}

pub open spec fn phases_failures(row_name: Seq<char>, row: SteadyStateRow, source: Seq<char>) -> Seq<
    Seq<char>,
> {
    let status = row.status@;
    phase_failures(row_name, source, status, "prepare"@, row.phases.prepare) + phase_failures(
        row_name,
        source,
        status,
        "warmup"@,
        row.phases.warmup,
    ) + phase_failures(row_name, source, status, "measure"@, row.phases.measure) + phase_failures(
        row_name,
        source,
        status,
        "drain"@,
        row.phases.drain,
    ) + phase_failures(row_name, source, status, "cleanup"@, row.phases.cleanup)
}

/// Finds what is wrong with the phases of a row.
pub fn validate_steady_state_phases(
    row_name: &str,
    row: &SteadyStateRow,
    source: &str,
    failures: &mut Vec<String>,
)
    ensures
        text::texts(final(failures)@) == text::texts(old(failures)@) + phases_failures(
            row_name@,
            *row,
            source@,
        ),
{
    let status: &str = row.status.as_str();
    validate_phase(row_name, source, status, "prepare", &row.phases.prepare, failures);
    validate_phase(row_name, source, status, "warmup", &row.phases.warmup, failures);
    validate_phase(row_name, source, status, "measure", &row.phases.measure, failures);
    validate_phase(row_name, source, status, "drain", &row.phases.drain, failures);
    validate_phase(row_name, source, status, "cleanup", &row.phases.cleanup, failures);
    proof {
        let s = row.status@;
        lemma_five_lists(
            text::texts(old(failures)@),
            phase_failures(row_name@, source@, s, "prepare"@, row.phases.prepare),
            phase_failures(row_name@, source@, s, "warmup"@, row.phases.warmup),
            phase_failures(row_name@, source@, s, "measure"@, row.phases.measure),
            phase_failures(row_name@, source@, s, "drain"@, row.phases.drain),
            phase_failures(row_name@, source@, s, "cleanup"@, row.phases.cleanup),
        );
    }
}

proof fn lemma_five_lists<A>(s: Seq<A>, a: Seq<A>, b: Seq<A>, c: Seq<A>, d: Seq<A>, e: Seq<A>)
    ensures
        s + a + b + c + d + e == s + (a + b + c + d + e),
{
    assert(s + a + b + c + d + e =~= s + (a + b + c + d + e));
}

/// How much is wrong with the task and the phases of a row does not depend on what the artifact is
/// called.
pub proof fn lemma_any_source(
    name: Seq<char>,
    row: SteadyStateRow,
    a: Seq<char>,
    b: Seq<char>,
)
    ensures
        task_failures(name, row.task, a).len() == task_failures(name, row.task, b).len(),
        phases_failures(name, row, a).len() == phases_failures(name, row, b).len(),
{
}

} // verus!
