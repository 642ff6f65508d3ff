//! Benchmark tables in CSV form: reading them and finding rows by name.
use crate::binary64::Float64;
use crate::failure::Failure;
use crate::figure;
use crate::figure::{quoted, Figure};
use crate::text;
use crate::text::{
    cat2, cat3, cat4, cat5, chars_of, decimal_text, ends_with, same_text, starts_with, trimmed,
    white,
};
use vstd::prelude::*;

verus! {

/// The fields of a CSV record, or the error of one that cannot be read.
pub type Record = Result<Vec<String>, String>;

pub open spec fn record_view(record: Record) -> Result<Seq<Seq<char>>, Seq<char>> {
    match record {
        Ok(fields) => Ok(text::texts(fields@)),
        Err(e) => Err(e@),
    }
}

pub open spec fn record_views(records: Seq<Record>) -> Seq<Result<Seq<Seq<char>>, Seq<char>>> {
    Seq::new(records.len(), |i: int| record_view(records[i]))
}

/// What `csv::Reader::headers` gives for the data.
pub uninterp spec fn csv_header(data: Seq<u8>) -> Result<Seq<Seq<char>>, Seq<char>>;

/// What `csv::Reader::records` gives for the data.
pub uninterp spec fn csv_records(data: Seq<u8>) -> Seq<Result<Seq<Seq<char>>, Seq<char>>>;

/// `csv::Reader::headers`, of a reader with the default settings: the fields of the first row, or the
/// text of the error.
#[verifier::external_body]
fn read_header(data: &[u8]) -> (r: Record)
    ensures
        record_view(r) == csv_header(data@),
{
    let mut reader = csv::Reader::from_reader(data);
    let header = reader.headers().map_err(|e| e.to_string())?;
    Ok(header.iter().map(|field| field.to_string()).collect())
}

/// `csv::Reader::records`, of a reader with the default settings: the fields of every row but the
/// first, or the text of the error that stands in its place.
#[verifier::external_body]
fn read_records(data: &[u8]) -> (r: Vec<Record>)
    ensures
        record_views(r@) == csv_records(data@),
{
    let mut reader = csv::Reader::from_reader(data);
    let records = reader.records();
    records.map(|record| match record {
        Ok(fields) => Ok(fields.iter().map(|field| field.to_string()).collect()),
        Err(e) => Err(e.to_string()),
    }).collect()
}

/// The first field with the given text, or the number of fields where there is none.
pub open spec fn field_index(fields: Seq<Seq<char>>, name: Seq<char>) -> nat
    decreases fields.len(),
{
    if fields.len() == 0 || fields.first() == name {
        0
    } else {
        1 + field_index(fields.drop_first(), name)
    }
}

pub open spec fn missing_column(name: Seq<char>) -> Seq<char> {
    "missing CSV column "@ + figure::quoted_text(name)
}

proof fn lemma_field_index(fields: Seq<Seq<char>>, name: Seq<char>, k: int)
    requires
        0 <= k <= fields.len(),
        k < fields.len() ==> fields[k] == name,
        forall|i: int| 0 <= i < k ==> #[trigger] fields[i] != name,
    ensures
        field_index(fields, name) == k,
    decreases fields.len(),
{
    if fields.len() > 0 && fields.first() != name {
        let rest = fields.drop_first();
        assert forall|i: int| 0 <= i < k - 1 implies #[trigger] rest[i] != name by {
            assert(rest[i] == fields[i + 1]);
        }
        if k < fields.len() {
            assert(rest[k - 1] == fields[k]);
        }
        lemma_field_index(rest, name, k - 1);
    } else if k > 0 {
        assert(fields[0] != name);
    }
}

/// The place of a column in the header.
pub fn column_index(header: &Vec<String>, name: &str) -> (r: Result<usize, Failure>)
    ensures
        match r {
            Ok(i) => i < header@.len() && i == field_index(text::texts(header@), name@),
            Err(e) => field_index(text::texts(header@), name@) == header@.len() && e@
                == missing_column(name@),
        },
{
    let mut i: usize = 0;
    while i < header.len()
        invariant
            i <= header@.len(),
            forall|k: int| 0 <= k < i ==> #[trigger] text::texts(header@)[k] != name@,
        decreases header@.len() - i,
    {
        if same_text(header[i].as_str(), name) {
            proof {
                lemma_field_index(text::texts(header@), name@, i as int);
            }
            return Ok(i);
        }
        i = i + 1;
    }
    proof {
        lemma_field_index(text::texts(header@), name@, i as int);
    }
    Err(Failure::new(cat2("missing CSV column ", quoted(name).as_str())))
}

/// The cells of a measured row.
pub struct RawRow {
    pub label: String,
    pub ops: String,
    pub p95: String,
    pub p99: String,
}

/// The texts of the cells of a measured row.
pub struct Cells {
    pub label: Seq<char>,
    pub ops: Seq<char>,
    pub p95: Seq<char>,
    pub p99: Seq<char>,
}

impl View for RawRow {
    type V = Cells;

    open spec fn view(&self) -> Cells {
        Cells { label: self.label@, ops: self.ops@, p95: self.p95@, p99: self.p99@ }
    }
}

/// The measured rows of a table up to the first record that cannot be used, and the error of that
/// record.
pub struct RawTable {
    pub rows: Vec<RawRow>,
    pub stop: Option<String>,
}

/// Where the columns of a table are.
pub struct Columns {
    pub test: usize,
    pub ops: usize,
    pub p95: usize,
    pub p99: usize,
}

pub open spec fn cells_of(rows: Seq<RawRow>) -> Seq<Cells> {
    Seq::new(rows.len(), |i: int| rows[i]@)
}

pub open spec fn short_row(i: int) -> Seq<char> {
    "CSV row "@ + text::decimal((i + 2) as nat) + " has too few columns"@
}

pub open spec fn is_short(fields: Seq<Seq<char>>, c: Columns) -> bool {
    fields.len() <= c.test || fields.len() <= c.ops || fields.len() <= c.p95 || fields.len()
        <= c.p99
}

/// Why a record cannot be used, if it cannot; `i` counts the records from 0.
pub open spec fn record_error(
    record: Result<Seq<Seq<char>>, Seq<char>>,
    c: Columns,
    i: int,
) -> Option<Seq<char>> {
    match record {
        Err(e) => Some(e),
        Ok(fields) => if is_short(fields, c) {
            Some(short_row(i))
        } else {
            None
        },
    }
}

/// The cells of a record; a record that was not measured has none.
pub open spec fn record_cells(fields: Seq<Seq<char>>, c: Columns) -> Seq<Cells> {
    if text::trim(fields[c.ops as int]) == "-"@ {
        Seq::empty()
    } else {
        seq![
            Cells {
                label: text::trim(fields[c.test as int]),
                ops: fields[c.ops as int],
                p95: fields[c.p95 as int],
                p99: fields[c.p99 as int],
            },
        ]
    }
}

/// The cells of the first `n` records up to one that cannot be used, and its error.
pub open spec fn table_of(
    records: Seq<Result<Seq<Seq<char>>, Seq<char>>>,
    c: Columns,
    n: nat,
) -> (Seq<Cells>, Option<Seq<char>>)
    decreases n,
{
    if n == 0 {
        (Seq::empty(), None)
    } else {
        let before = table_of(records, c, (n - 1) as nat);
        if before.1 is Some {
            before
        } else {
            match record_error(records[n - 1], c, n - 1) {
                Some(e) => (before.0, Some(e)),
                None => (before.0 + record_cells(records[n - 1]->Ok_0, c), None),
            }
        }
    }
}

proof fn lemma_table_stops(
    records: Seq<Result<Seq<Seq<char>>, Seq<char>>>,
    c: Columns,
    k: nat,
    n: nat,
)
    requires
        k <= n,
        table_of(records, c, k).1 is Some,
    ensures
        table_of(records, c, n) == table_of(records, c, k),
    decreases n,
{
    if k < n {
        lemma_table_stops(records, c, k, (n - 1) as nat);
    }
}

/// The columns of a table with the given header, or the error of the first one that is missing.
pub open spec fn columns_of(header: Seq<Seq<char>>) -> Result<Columns, Seq<char>> {
    let test = field_index(header, "Test"@);
    let ops = field_index(header, "OPS"@);
    let p99 = field_index(header, "99th"@);
    let p95 = field_index(header, "95th"@);
    let n = header.len();
    if test == n {
        Err(missing_column("Test"@))
    } else if ops == n {
        Err(missing_column("OPS"@))
    } else if p99 == n {
        Err(missing_column("99th"@))
    } else if p95 == n {
        Err(missing_column("95th"@))
    } else {
        Ok(Columns { test: test as usize, ops: ops as usize, p95: p95 as usize, p99: p99 as usize })
    }
}

fn columns(header: &Vec<String>) -> (r: Result<Columns, Failure>)
    ensures
        match (r, columns_of(text::texts(header@))) {
            (Ok(c), Ok(d)) => c == d,
            (Err(e), Err(t)) => e@ == t,
            _ => false,
        },
{
    let test: usize = match column_index(header, "Test") {
        Ok(i) => i,
        Err(e) => {
            return Err(e);
        },
    };
    let ops: usize = match column_index(header, "OPS") {
        Ok(i) => i,
        Err(e) => {
            return Err(e);
        },
    };
    let p99: usize = match column_index(header, "99th") {
        Ok(i) => i,
        Err(e) => {
            return Err(e);
        },
    };
    let p95: usize = match column_index(header, "95th") {
        Ok(i) => i,
        Err(e) => {
            return Err(e);
        },
    };
    Ok(Columns { test, ops, p95, p99 })
}

pub open spec fn stop_view(stop: Option<String>) -> Option<Seq<char>> {
    match stop {
        Some(e) => Some(e@),
        None => None,
    }
}

/// Whether `r` is what a header and records come to.
pub open spec fn is_table(
    r: Result<RawTable, Failure>,
    header: Result<Seq<Seq<char>>, Seq<char>>,
    records: Seq<Result<Seq<Seq<char>>, Seq<char>>>,
) -> bool {
    match header {
        Err(_) => r matches Err(e) && e@ == "missing CSV header"@,
        Ok(fields) => match columns_of(fields) {
            Err(t) => r matches Err(e) && e@ == t,
            Ok(c) => r matches Ok(table) && (cells_of(table.rows@), stop_view(table.stop))
                == table_of(records, c, records.len()),
        },
    }
}

/// Picks the cells of the measured rows out of a header and records.
pub fn raw_table(header: &Record, records: &Vec<Record>) -> (r: Result<RawTable, Failure>)
    ensures
        is_table(r, record_view(*header), record_views(records@)),
{
    let fields: &Vec<String> = match header {
        Ok(fields) => fields,
        Err(_) => {
            return Err(Failure::new("missing CSV header".to_owned()));
        },
    };
    let c: Columns = match columns(fields) {
        Ok(c) => c,
        Err(e) => {
            return Err(e);
        },
    };
    let ghost all = record_views(records@);
    let mut rows: Vec<RawRow> = Vec::new();
    assert(cells_of(rows@) =~= Seq::empty());
    let mut i: usize = 0;
    #[verifier::loop_isolation(false)]
    while i < records.len()
        invariant
            i <= records@.len(),
            (cells_of(rows@), None::<Seq<char>>) == table_of(all, c, i as nat),
        decreases records@.len() - i,
    {
        assert(all[i as int] == record_view(records@[i as int]));
        let record: &Vec<String> = match &records[i] {
            Ok(record) => record,
            Err(e) => {
                proof {
                    lemma_table_stops(all, c, (i + 1) as nat, all.len());
                }
                return Ok(RawTable { rows, stop: Some(e.clone()) });
            },
        };
        if record.len() <= c.test || record.len() <= c.ops || record.len() <= c.p95
            || record.len() <= c.p99 {
            let line: u128 = i as u128 + 2;
            let error: String = cat3(
                "CSV row ",
                decimal_text(line).as_str(),
                " has too few columns",
            );
            proof {
                lemma_table_stops(all, c, (i + 1) as nat, all.len());
            }
            return Ok(RawTable { rows, stop: Some(error) });
        }
        if !same_text(trimmed(record[c.ops].as_str()), "-") {
            let row: RawRow = RawRow {
                label: trimmed(record[c.test].as_str()).to_owned(),
                ops: record[c.ops].clone(),
                p95: record[c.p95].clone(),
                p99: record[c.p99].clone(),
            };
            let ghost before = cells_of(rows@);
            let ghost view = row@;
            rows.push(row);
            assert(cells_of(rows@) =~= before + seq![view]);
        } else {
            assert(cells_of(rows@) =~= cells_of(rows@) + Seq::<Cells>::empty());
        }
        i = i + 1;
    }
    Ok(RawTable { rows, stop: None })
}

/// Reads the cells of the measured rows of a table.
pub fn read_table(data: &[u8]) -> (r: Result<RawTable, Failure>)
    ensures
        is_table(r, csv_header(data@), csv_records(data@)),
{
    let header: Record = read_header(data);
    let records: Vec<Record> = read_records(data);
    raw_table(&header, &records)
}

/// What reading a number came to.
pub enum Parsed {
    Number { figure: Figure },
    Unreadable,
}

/// The numbers of a measured row, read by the caller from the texts that `number_texts` gives.
pub struct RowNumbers {
    pub ops: Parsed,
    pub p95: Parsed,
    pub p99: Parsed,
}

/// What was measured.
pub struct BenchRow {
    pub ops: Figure,
    pub p95_ms: Figure,
    pub p99_ms: Figure,
}

/// The text of the number in a duration cell; none where the cell holds no duration in ms.
pub open spec fn duration_number(cell: Seq<char>) -> Option<Seq<char>> {
    let t = text::trim(cell);
    if t != "-"@ && "ms"@.is_suffix_of(t) {
        Some(text::trim(t.take(t.len() - 2)))
    } else {
        None
    }
}

/// The text of the number in a duration cell.
pub fn duration_text(cell: &str) -> (r: Option<String>)
    ensures
        match (r, duration_number(cell@)) {
            (Some(a), Some(b)) => a@ == b,
            (None, None) => true,
            _ => false,
        },
{
    proof {
        reveal_strlit("ms");
    }
    let t: &str = trimmed(cell);
    if !same_text(t, "-") && ends_with(t, "ms") {
        let n: usize = t.unicode_len();
        let number: &str = t.substring_char(0, n - 2);
        assert(number@ =~= t@.take(t@.len() - 2));
        Some(trimmed(number).to_owned())
    } else {
        None
    }
}

/// The texts to read as the numbers of a row: rate, 95th and 99th percentile. A cell without a
/// number has none.
pub fn number_texts(row: &RawRow) -> (r: (String, Option<String>, Option<String>))
    ensures
        r.0@ == text::trim(row.ops@),
        match (r.1, duration_number(row.p95@)) {
            (Some(a), Some(b)) => a@ == b,
            (None, None) => true,
            _ => false,
        },
        match (r.2, duration_number(row.p99@)) {
            (Some(a), Some(b)) => a@ == b,
            (None, None) => true,
            _ => false,
        },
{
    (
        trimmed(row.ops.as_str()).to_owned(),
        duration_text(row.p95.as_str()),
        duration_text(row.p99.as_str()),
    )
}

pub open spec fn unreadable_number(cell: Seq<char>, label: Seq<char>) -> Seq<char> {
    "invalid "@ + label + " value "@ + figure::quoted_text(cell)
}

pub open spec fn negative_number(cell: Seq<char>, label: Seq<char>) -> Seq<char> {
    unreadable_number(cell, label) + ": must be a non-negative number"@
}

/// Why a cell holds no number of the given kind, if it does not.
pub open spec fn number_error(cell: Seq<char>, label: Seq<char>, parsed: Parsed) -> Option<
    Seq<char>,
> {
    match parsed {
        Parsed::Unreadable => Some(unreadable_number(cell, label)),
        Parsed::Number { figure } => if figure.value.invalid_quantity_spec() {
            Some(negative_number(cell, label))
        } else {
            None
        },
    }
}

/// Checks the number of a cell: it must be finite and not negative. `parsed` is what reading the
/// trimmed cell as a number came to.
pub fn parse_number(cell: &str, label: &str, parsed: Parsed) -> (r: Result<Figure, Failure>)
    ensures
        match (r, number_error(cell@, label@, parsed)) {
            (Ok(f), None) => parsed == (Parsed::Number { figure: f }),
            (Err(e), Some(t)) => e@ == t,
            _ => false,
        },
{
    let head: String = cat4("invalid ", label, " value ", quoted(cell).as_str());
    match parsed {
        Parsed::Unreadable => Err(Failure::new(head)),
        Parsed::Number { figure } => {
            if figure.value.invalid_quantity() {
                Err(Failure::new(cat2(head.as_str(), ": must be a non-negative number")))
            } else {
                Ok(figure)
            }
        },
    }
}

pub open spec fn not_ms(cell: Seq<char>) -> Seq<char> {
    "expected duration in ms, got "@ + figure::quoted_text(cell)
}

/// Why a cell holds no duration, if it does not; a dash stands for none at all.
pub open spec fn duration_error(cell: Seq<char>, parsed: Parsed) -> Option<Seq<char>> {
    if text::trim(cell) == "-"@ {
        None
    } else {
        match duration_number(cell) {
            None => Some(not_ms(cell)),
            Some(number) => number_error(number, "duration"@, parsed),
        }
    }
}

/// Whether `f` is the duration that a cell holds.
pub open spec fn is_duration(f: Figure, cell: Seq<char>, parsed: Parsed) -> bool {
    if text::trim(cell) == "-"@ {
        f.value == Float64::zero_spec() && f.fixed@ == "0.00"@ && f.plain@ == "0"@
    } else {
        parsed == (Parsed::Number { figure: f })
    }
}

/// The duration in a cell, in ms. `parsed` is what reading its number came to.
pub fn parse_duration_ms(cell: &str, parsed: Parsed) -> (r: Result<Figure, Failure>)
    ensures
        match (r, duration_error(cell@, parsed)) {
            (Ok(f), None) => is_duration(f, cell@, parsed),
            (Err(e), Some(t)) => e@ == t,
            _ => false,
        },
{
    if same_text(trimmed(cell), "-") {
        return Ok(
            Figure { value: Float64::zero(), fixed: "0.00".to_owned(), plain: "0".to_owned() },
        );
    }
    match duration_text(cell) {
        None => Err(
            Failure::new(cat2("expected duration in ms, got ", quoted(cell).as_str())),
        ),
        Some(number) => parse_number(number.as_str(), "duration", parsed),
    }
}

/// A measured row under its label.
pub struct NamedRow {
    pub label: String,
    pub row: BenchRow,
}

/// The measured rows of a table; no label occurs twice.
pub struct BenchCsv {
    pub rows: Vec<NamedRow>,
}

pub open spec fn labels(rows: Seq<NamedRow>) -> Seq<Seq<char>> {
    Seq::new(rows.len(), |i: int| rows[i].label@)
}

impl BenchCsv {
    pub open spec fn wf(self) -> bool {
        labels(self.rows@).no_duplicates()
    }
}

pub open spec fn duplicate_row(label: Seq<char>) -> Seq<char> {
    "duplicate row "@ + figure::quoted_text(label) + " found in CSV"@
}

/// Why the row at `k` cannot be taken, if it cannot: the first of its cells that is no number, or a
/// label that an earlier row has.
pub open spec fn row_error(cells: Seq<Cells>, numbers: Seq<RowNumbers>, k: int) -> Option<Seq<char>> {
    let c = cells[k];
    let n = numbers[k];
    match number_error(c.ops, "OPS"@, n.ops) {
        Some(e) => Some(e),
        None => match duration_error(c.p95, n.p95) {
            Some(e) => Some(e),
            None => match duration_error(c.p99, n.p99) {
                Some(e) => Some(e),
                None => if exists|i: int| 0 <= i < k && (#[trigger] cells[i]).label == c.label {
                    Some(duplicate_row(c.label))
                } else {
                    None
                },
            },
        },
    }
}

/// The error of the first of the first `n` rows that cannot be taken.
pub open spec fn rows_error(cells: Seq<Cells>, numbers: Seq<RowNumbers>, n: nat) -> Option<Seq<char>>
    decreases n,
{
    if n == 0 {
        None
    } else {
        match rows_error(cells, numbers, (n - 1) as nat) {
            Some(e) => Some(e),
            None => row_error(cells, numbers, n - 1),
        }
    }
}

proof fn lemma_rows_error(cells: Seq<Cells>, numbers: Seq<RowNumbers>, k: nat, n: nat)
    requires
        k <= n,
        rows_error(cells, numbers, k) is Some,
    ensures
        rows_error(cells, numbers, n) == rows_error(cells, numbers, k),
    decreases n,
{
    if k < n {
        lemma_rows_error(cells, numbers, k, (n - 1) as nat);
    }
}

/// Why a table cannot be taken, if it cannot.
pub open spec fn table_error(table: RawTable, numbers: Seq<RowNumbers>) -> Option<Seq<char>> {
    match rows_error(cells_of(table.rows@), numbers, table.rows@.len()) {
        Some(e) => Some(e),
        None => stop_view(table.stop),
    }
}

/// Whether `row` holds the given cells and numbers.
pub open spec fn holds(row: NamedRow, cells: Cells, numbers: RowNumbers) -> bool {
    &&& row.label@ == cells.label
    &&& numbers.ops == (Parsed::Number { figure: row.row.ops })
    &&& is_duration(row.row.p95_ms, cells.p95, numbers.p95)
    &&& is_duration(row.row.p99_ms, cells.p99, numbers.p99)
}

/// Whether a list of rows has the label.
fn has_label(rows: &Vec<NamedRow>, label: &str) -> (r: bool)
    ensures
        r == labels(rows@).contains(label@),
{
    let mut i: usize = 0;
    while i < rows.len()
        invariant
            i <= rows@.len(),
            forall|k: int| 0 <= k < i ==> #[trigger] labels(rows@)[k] != label@,
        decreases rows@.len() - i,
    {
        if same_text(rows[i].label.as_str(), label) {
            assert(labels(rows@)[i as int] == label@);
            return true;
        }
        i = i + 1;
    }
    false
}

/// Takes the rows of a table with the numbers that were read from them.
pub fn parse_crud_bench_csv(table: &RawTable, numbers: Vec<RowNumbers>) -> (r: Result<
    BenchCsv,
    Failure,
>)
    requires
        numbers@.len() == table.rows@.len(),
    ensures
        match (r, table_error(*table, numbers@)) {
            (Ok(csv), None) => {
                &&& csv.wf()
                &&& csv.rows@.len() == table.rows@.len()
                &&& forall|i: int|
                    0 <= i < csv.rows@.len() ==> holds(
                        #[trigger] csv.rows@[i],
                        table.rows@[i]@,
                        numbers@[i],
                    )
            },
            (Err(e), Some(t)) => e@ == t,
            _ => false,
        },
{
    let ghost given = numbers@;
    let ghost cells = cells_of(table.rows@);
    let mut rows: Vec<NamedRow> = Vec::new();
    #[verifier::loop_isolation(false)]
    for n in it: numbers
        invariant
            it.seq() == given,
            rows@.len() == it.index(),
            rows_error(cells, given, it.index() as nat) is None,
            labels(rows@).no_duplicates(),
            forall|i: int|
                0 <= i < rows@.len() ==> holds(
                    #[trigger] rows@[i],
                    table.rows@[i]@,
                    given[i],
                ),
    {
        let k: usize = rows.len();
        let raw: &RawRow = &table.rows[k];
        assert(cells[k as int] == raw@);
        assert(n == given[k as int]);
        proof {
            if rows_error(cells, given, (k + 1) as nat) is Some {
                lemma_rows_error(cells, given, (k + 1) as nat, table.rows@.len());
            }
        }
        let ops: Figure = match parse_number(raw.ops.as_str(), "OPS", n.ops) {
            Ok(f) => f,
            Err(e) => {
                return Err(e);
            },
        };
        let p95_ms: Figure = match parse_duration_ms(raw.p95.as_str(), n.p95) {
            Ok(f) => f,
            Err(e) => {
                return Err(e);
            },
        };
        let p99_ms: Figure = match parse_duration_ms(raw.p99.as_str(), n.p99) {
            Ok(f) => f,
            Err(e) => {
                return Err(e);
            },
        };
        let ghost before = rows@;
        assert forall|i: int| 0 <= i < k implies #[trigger] labels(before)[i] == cells[i].label by {
            assert(holds(before[i], table.rows@[i]@, given[i]));
        }
        if has_label(&rows, raw.label.as_str()) {
            proof {
                let i = choose|i: int| 0 <= i < k && labels(before)[i] == raw.label@;
                assert(cells[i].label == cells[k as int].label);
            }
            return Err(
                Failure::new(
                    cat3("duplicate row ", quoted(raw.label.as_str()).as_str(), " found in CSV"),
                ),
            );
        }
        proof {
            if exists|i: int| 0 <= i < k && (#[trigger] cells[i]).label == cells[k as int].label {
                let i = choose|i: int|
                    0 <= i < k && (#[trigger] cells[i]).label == cells[k as int].label;
                assert(labels(before)[i] == raw.label@);
                assert(labels(before).contains(raw.label@));
            }
        }
        let label: String = raw.label.clone();
        rows.push(NamedRow { label, row: BenchRow { ops, p95_ms, p99_ms } });
        assert(labels(rows@) =~= labels(before).push(raw.label@));
    }
    match &table.stop {
        Some(e) => Err(Failure::new(e.clone())),
        None => Ok(BenchCsv { rows }),
    }
}

/// The position of the first white space, or the length where there is none.
pub open spec fn first_white(s: Seq<char>) -> nat
    decreases s.len(),
{
    if s.len() == 0 || text::is_white(s.first()) {
        0
    } else {
        1 + first_white(s.drop_first())
    }
}

/// The first word of a text; the text itself where it has none.
pub open spec fn first_word(s: Seq<char>) -> Seq<char> {
    let t = text::trim_front(s);
    if t.len() == 0 {
        s
    } else {
        t.take(first_white(t) as int)
    }
}

/// The stable name of a row.
pub open spec fn alias(label: Seq<char>) -> Seq<char> {
    let l = text::trim(label);
    if l == "[C]reate"@ {
        "put_c"@
    } else if l == "[R]eads"@ || l == "[R]ead"@ {
        "get_c"@
    } else if l == "[U]pdate"@ {
        "update_c"@
    } else if l == "[D]elete"@ {
        "delete_c"@
    } else if "[B]atch::"@.is_prefix_of(l) {
        first_word(l.skip("[B]atch::"@.len() as int))
    } else {
        l
    }
}

proof fn lemma_first_white(s: Seq<char>, k: int)
    requires
        0 <= k <= s.len(),
        k < s.len() ==> text::is_white(s[k]),
        forall|i: int| 0 <= i < k ==> !text::is_white(#[trigger] s[i]),
    ensures
        first_white(s) == k,
    decreases s.len(),
{
    if s.len() > 0 && !text::is_white(s.first()) {
        let rest = s.drop_first();
        assert forall|i: int| 0 <= i < k - 1 implies !text::is_white(#[trigger] rest[i]) by {
            assert(rest[i] == s[i + 1]);
        }
        if k < s.len() {
            assert(rest[k - 1] == s[k]);
        }
        lemma_first_white(rest, k - 1);
    } else if k > 0 {
        assert(!text::is_white(s[0]));
    }
}

proof fn lemma_trim_front_at(s: Seq<char>, k: int)
    requires
        0 <= k <= s.len(),
        k < s.len() ==> !text::is_white(s[k]),
        forall|i: int| 0 <= i < k ==> text::is_white(#[trigger] s[i]),
    ensures
        text::trim_front(s) == s.skip(k),
    decreases k,
{
    if k == 0 {
        assert(s.skip(0) =~= s);
    } else {
        assert(text::is_white(s[0]));
        let rest = s.drop_first();
        assert forall|i: int| 0 <= i < k - 1 implies text::is_white(#[trigger] rest[i]) by {
            assert(rest[i] == s[i + 1]);
        }
        if k < s.len() {
            assert(rest[k - 1] == s[k]);
        }
        lemma_trim_front_at(rest, k - 1);
        assert(rest.skip(k - 1) =~= s.skip(k));
    }
}

fn word_of(s: &str) -> (r: String)
    ensures
        r@ == first_word(s@),
{
    let chars: Vec<char> = chars_of(s);
    let mut start: usize = 0;
    while start < chars.len() && white(chars[start])
        invariant
            start <= chars@.len(),
            forall|i: int| 0 <= i < start ==> text::is_white(#[trigger] chars@[i]),
        decreases chars@.len() - start,
    {
        start = start + 1;
    }
    proof {
        lemma_trim_front_at(s@, start as int);
    }
    if start == chars.len() {
        return s.to_owned();
    }
    let mut end: usize = start;
    while end < chars.len() && !white(chars[end])
        invariant
            start <= end <= chars@.len(),
            forall|i: int| start <= i < end ==> !text::is_white(#[trigger] chars@[i]),
        decreases chars@.len() - end,
    {
        end = end + 1;
    }
    let ghost t = s@.skip(start as int);
    proof {
        assert forall|i: int| 0 <= i < end - start implies !text::is_white(#[trigger] t[i]) by {
            assert(t[i] == chars@[start + i]);
        }
        lemma_first_white(t, end - start);
    }
    let word: &str = s.substring_char(start, end);
    assert(word@ =~= t.take(end - start));
    word.to_owned()
}

/// The stable name of a row: a short name for the phases, the batch name for a batch, any other
/// label as it is.
pub fn row_alias(label: &str) -> (r: String)
    ensures
        r@ == alias(label@),
{
    let l: &str = trimmed(label);
    if same_text(l, "[C]reate") {
        return "put_c".to_owned();
    }
    if same_text(l, "[R]eads") || same_text(l, "[R]ead") {
        return "get_c".to_owned();
    }
    if same_text(l, "[U]pdate") {
        return "update_c".to_owned();
    }
    if same_text(l, "[D]elete") {
        return "delete_c".to_owned();
    }
    if starts_with(l, "[B]atch::") {
        let rest: &str = l.substring_char("[B]atch::".unicode_len(), l.unicode_len());
        assert(rest@ =~= l@.skip("[B]atch::"@.len() as int));
        return word_of(rest);
    }
    l.to_owned()
}

/// The first of the first `n` rows with the label.
pub open spec fn labelled(rows: Seq<NamedRow>, name: Seq<char>, n: nat) -> Option<int>
    decreases n,
{
    if n == 0 {
        None
    } else {
        match labelled(rows, name, (n - 1) as nat) {
            Some(i) => Some(i),
            None => if rows[n - 1].label@ == name {
                Some(n - 1)
            } else {
                None
            },
        }
    }
}

/// How many of the first `n` rows have the alias.
pub open spec fn alias_count(rows: Seq<NamedRow>, name: Seq<char>, n: nat) -> nat
    decreases n,
{
    if n == 0 {
        0
    } else {
        alias_count(rows, name, (n - 1) as nat) + if alias(rows[n - 1].label@) == name {
            1nat
        } else {
            0nat
        }
    }
}

/// The last of the first `n` rows with the alias.
pub open spec fn aliased(rows: Seq<NamedRow>, name: Seq<char>, n: nat) -> int
    decreases n,
{
    if n == 0 {
        -1
    } else if alias(rows[n - 1].label@) == name {
        n - 1
    } else {
        aliased(rows, name, (n - 1) as nat)
    }
}

/// The row that a name stands for: the one with that label, else the only one with that alias; or
/// why there is none.
pub open spec fn lookup(rows: Seq<NamedRow>, name: Seq<char>, source: Seq<char>) -> Result<
    int,
    Seq<char>,
> {
    match labelled(rows, name, rows.len()) {
        Some(i) => Ok(i),
        None => {
            let count = alias_count(rows, name, rows.len());
            if count == 1 {
                Ok(aliased(rows, name, rows.len()))
            } else if count == 0 {
                Err(
                    "missing row "@ + figure::quoted_text(name) + " in "@ + source + " CSV"@,
                )
            } else {
                Err(
                    "ambiguous row "@ + figure::quoted_text(name) + " in "@ + source
                        + " CSV: multiple matches found"@,
                )
            }
        },
    }
}

/// A row that is found is one of the table.
pub proof fn lemma_lookup_in_range(rows: Seq<NamedRow>, name: Seq<char>, source: Seq<char>)
    ensures
        lookup(rows, name, source) matches Ok(i) ==> 0 <= i < rows.len() && (rows[i].label@ == name
            || alias(rows[i].label@) == name),
{
    lemma_labelled(rows, name, rows.len());
    lemma_aliased(rows, name, rows.len());
}

proof fn lemma_labelled(rows: Seq<NamedRow>, name: Seq<char>, n: nat)
    requires
        n <= rows.len(),
    ensures
        labelled(rows, name, n) matches Some(i) ==> 0 <= i < n && rows[i].label@ == name,
    decreases n,
{
    if n > 0 {
        lemma_labelled(rows, name, (n - 1) as nat);
    }
}

proof fn lemma_aliased(rows: Seq<NamedRow>, name: Seq<char>, n: nat)
    requires
        n <= rows.len(),
    ensures
        alias_count(rows, name, n) > 0 ==> 0 <= aliased(rows, name, n) < n && alias(
            rows[aliased(rows, name, n)].label@,
        ) == name,
    decreases n,
{
    if n > 0 {
        lemma_aliased(rows, name, (n - 1) as nat);
    }
}

/// The place of the row that a name stands for.
pub fn row_place(csv: &BenchCsv, row: &str, source: &str) -> (r: Result<usize, Failure>)
    ensures
        match (r, lookup(csv.rows@, row@, source@)) {
            (Ok(i), Ok(k)) => i == k && i < csv.rows@.len(),
            (Err(e), Err(t)) => e@ == t,
            _ => false,
        },
{
    let mut exact: Option<usize> = None;
    let mut count: usize = 0;
    let mut last: usize = 0;
    let mut i: usize = 0;
    while i < csv.rows.len()
        invariant
            i <= csv.rows@.len(),
            match (exact, labelled(csv.rows@, row@, i as nat)) {
                (Some(a), Some(b)) => a == b,
                (None, None) => true,
                _ => false,
            },
            count == alias_count(csv.rows@, row@, i as nat),
            count <= i,
            count > 0 ==> last == aliased(csv.rows@, row@, i as nat),
        decreases csv.rows@.len() - i,
    {
        if exact.is_none() && same_text(csv.rows[i].label.as_str(), row) {
            exact = Some(i);
        }
        if same_text(row_alias(csv.rows[i].label.as_str()).as_str(), row) {
            count = count + 1;
            last = i;
        }
        i = i + 1;
    }
    proof {
        lemma_lookup_in_range(csv.rows@, row@, source@);
    }
    match exact {
        Some(k) => Ok(k),
        None => {
            if count == 1 {
                Ok(last)
            } else if count == 0 {
                Err(
                    Failure::new(
                        cat5("missing row ", quoted(row).as_str(), " in ", source, " CSV"),
                    ),
                )
            } else {
                Err(
                    Failure::new(
                        cat5(
                            "ambiguous row ",
                            quoted(row).as_str(),
                            " in ",
                            source,
                            " CSV: multiple matches found",
                        ),
                    ),
                )
            }
        },
    }
}

/// The row that a name stands for.
pub fn required_row<'a>(csv: &'a BenchCsv, row: &str, source: &str) -> (r: Result<
    &'a BenchRow,
    Failure,
>)
    ensures
        match (r, lookup(csv.rows@, row@, source@)) {
            (Ok(b), Ok(k)) => 0 <= k < csv.rows@.len() && *b == csv.rows@[k].row,
            (Err(e), Err(t)) => e@ == t,
            _ => false,
        },
{
    match row_place(csv, row, source) {
        Ok(i) => Ok(&csv.rows[i].row),
        Err(e) => Err(e),
    }
}

} // verus!
