//! Benchmark tables: which columns and rows are read, and what they are called.
use crate::failure::Failure;
use crate::figure;
use crate::laws::words;
use crate::table;
use crate::table::{Cells, Columns, NamedRow, Parsed, RawRow, RawTable, RowNumbers};
use crate::text;
use vstd::prelude::*;

verus! {

/// Whether a column of the header is the first with the given title.
pub open spec fn first_titled(header: Seq<Seq<char>>, title: Seq<char>, i: int) -> bool {
    &&& 0 <= i < header.len()
    &&& header[i] == title
    &&& forall|j: int| 0 <= j < i ==> #[trigger] header[j] != title
}

proof fn lemma_field_found(fields: Seq<Seq<char>>, name: Seq<char>)
    ensures
        table::field_index(fields, name) <= fields.len(),
        table::field_index(fields, name) < fields.len() ==> first_titled(
            fields,
            name,
            table::field_index(fields, name) as int,
        ),
        table::field_index(fields, name) == fields.len() <==> !fields.contains(name),
    decreases fields.len(),
{
    if fields.len() > 0 && fields.first() != name {
        let rest = fields.drop_first();
        lemma_field_found(rest, name);
        let k = table::field_index(rest, name) as int;
        assert forall|j: int| 0 <= j < k + 1 implies #[trigger] fields[j] != name by {
            if j > 0 {
                assert(fields[j] == rest[j - 1]);
                if k == rest.len() {
                    assert(rest.contains(rest[j - 1]));
                }
            }
        }
        if k < rest.len() {
            assert(rest[k] == fields[k + 1]);
            assert(fields.contains(name));
        } else if fields.contains(name) {
            let j = choose|j: int| 0 <= j < fields.len() && fields[j] == name;
            assert(j < k + 1);
        }
    } else if fields.len() > 0 {
        assert(fields[0] == name);
    }
}

/// The columns of a table are the first ones with their titles; a table that lacks one of them is
/// refused, by the first that it lacks: the name, the rate, the 99th and then the 95th percentile.
pub proof fn lemma_columns_by_title(header: Seq<Seq<char>>)
    requires
        header.len() <= usize::MAX,
    ensures
        match table::columns_of(header) {
            Ok(c) => {
                &&& first_titled(header, "Test"@, c.test as int)
                &&& first_titled(header, "OPS"@, c.ops as int)
                &&& first_titled(header, "95th"@, c.p95 as int)
                &&& first_titled(header, "99th"@, c.p99 as int)
            },
            Err(e) => {
                let lacks = |title: Seq<char>| !header.contains(title);
                if lacks("Test"@) {
                    e == "missing CSV column "@ + figure::quoted_text("Test"@)
                } else if lacks("OPS"@) {
                    e == "missing CSV column "@ + figure::quoted_text("OPS"@)
                } else if lacks("99th"@) {
                    e == "missing CSV column "@ + figure::quoted_text("99th"@)
                } else {
                    lacks("95th"@) && e == "missing CSV column "@ + figure::quoted_text("95th"@)
                }
            },
        },
{
    lemma_field_found(header, "Test"@);
    lemma_field_found(header, "OPS"@);
    lemma_field_found(header, "99th"@);
    lemma_field_found(header, "95th"@);
}

/// Whether a record can be used: it could be read, and has all of the columns.
pub open spec fn readable(record: Result<Seq<Seq<char>>, Seq<char>>, c: Columns) -> bool {
    record matches Ok(fields) && c.test < fields.len() && c.ops < fields.len() && c.p95
        < fields.len() && c.p99 < fields.len()
}

/// Whether the row of a record was measured: its rate is not a dash.
pub open spec fn was_measured(record: Result<Seq<Seq<char>>, Seq<char>>, c: Columns) -> bool {
    text::trim(record->Ok_0[c.ops as int]) != "-"@
}

/// How many of the first `n` records were measured.
pub open spec fn measured_count(
    records: Seq<Result<Seq<Seq<char>>, Seq<char>>>,
    c: Columns,
    n: nat,
) -> nat
    decreases n,
{
    if n == 0 {
        0
    } else {
        measured_count(records, c, (n - 1) as nat) + if was_measured(records[n - 1], c) {
            1nat
        } else {
            0nat
        }
    }
}

/// Whether a row holds the cells of a record, each from the column of its title; the name is
/// trimmed.
pub open spec fn from_record(
    row: Cells,
    record: Result<Seq<Seq<char>>, Seq<char>>,
    c: Columns,
) -> bool {
    let fields = record->Ok_0;
    &&& row.label == text::trim(fields[c.test as int])
    &&& row.ops == fields[c.ops as int]
    &&& row.p95 == fields[c.p95 as int]
    &&& row.p99 == fields[c.p99 as int]
}

/// A table without a bad record holds a row for every record that was measured, in their order,
/// with the cells of its columns.
pub proof fn lemma_rows_read(
    records: Seq<Result<Seq<Seq<char>>, Seq<char>>>,
    c: Columns,
    n: nat,
)
    requires
        n <= records.len(),
    ensures
        ({
            let (rows, stop) = table::table_of(records, c, n);
            &&& stop is None <==> forall|i: int| 0 <= i < n ==> readable(#[trigger] records[i], c)
            &&& stop is None ==> rows.len() == measured_count(records, c, n)
            &&& stop is None ==> forall|i: int|
                0 <= i < n && was_measured(#[trigger] records[i], c) ==> measured_count(
                    records,
                    c,
                    i as nat,
                ) < rows.len() && from_record(
                    rows[measured_count(records, c, i as nat) as int],
                    records[i],
                    c,
                )
        }),
    decreases n,
{
    if n > 0 {
        lemma_rows_read(records, c, (n - 1) as nat);
        let (before, stopped) = table::table_of(records, c, (n - 1) as nat);
        let (rows, stop) = table::table_of(records, c, n);
        if stop is None {
            assert(readable(records[n - 1], c));
            assert forall|i: int| 0 <= i < n && was_measured(
                #[trigger] records[i],
                c,
            ) implies measured_count(records, c, i as nat) < rows.len() && from_record(
                rows[measured_count(records, c, i as nat) as int],
                records[i],
                c,
            ) by {
                if i < n - 1 {
                    let k = measured_count(records, c, i as nat) as int;
                    assert(rows[k] == before[k]);
                }
            }
        }
    }
}

/// A bad record ends the table: the rows before it are kept, and its error is that of the reader or
/// names its line, the header being the first.
pub proof fn lemma_table_stopped(
    records: Seq<Result<Seq<Seq<char>>, Seq<char>>>,
    c: Columns,
    n: nat,
)
    requires
        n <= records.len(),
        table::table_of(records, c, n).1 is Some,
    ensures
        exists|k: int|
            {
                &&& 0 <= k < n
                &&& !readable(#[trigger] records[k], c)
                &&& forall|i: int| 0 <= i < k ==> readable(#[trigger] records[i], c)
                &&& table::table_of(records, c, n).0 == table::table_of(records, c, k as nat).0
                &&& table::table_of(records, c, n).1 == Some(
                    match records[k] {
                        Err(e) => e,
                        Ok(_) => "CSV row "@ + text::decimal((k + 2) as nat)
                            + " has too few columns"@,
                    },
                )
            },
    decreases n,
{
    let m = (n - 1) as nat;
    if table::table_of(records, c, m).1 is Some {
        lemma_table_stopped(records, c, m);
    } else {
        lemma_rows_read(records, c, m);
        assert(!readable(records[m as int], c));
    }
}

/// Whether a number was read and is finite and not negative.
pub open spec fn sound_number(parsed: Parsed) -> bool {
    parsed matches Parsed::Number { figure } && !figure.value.invalid_quantity_spec()
}

/// Whether a cell holds a duration: a dash, or a sound number in ms.
pub open spec fn sound_duration(cell: Seq<char>, parsed: Parsed) -> bool {
    text::trim(cell) == "-"@ || ("ms"@.is_suffix_of(text::trim(cell)) && sound_number(parsed))
}

/// The rows of a table are taken exactly where each of them has a sound rate, sound durations and a
/// label of its own.
pub proof fn lemma_rows_taken(cells: Seq<Cells>, numbers: Seq<RowNumbers>, n: nat)
    requires
        n <= cells.len(),
    ensures
        table::rows_error(cells, numbers, n) is None <==> {
            &&& forall|k: int|
                0 <= k < n ==> sound_number((#[trigger] numbers[k]).ops) && sound_duration(
                    cells[k].p95,
                    numbers[k].p95,
                ) && sound_duration(cells[k].p99, numbers[k].p99)
            &&& forall|i: int, k: int|
                0 <= i < k < n ==> (#[trigger] cells[i]).label != (#[trigger] cells[k]).label
        },
    decreases n,
{
    if n > 0 {
        let m = (n - 1) as nat;
        lemma_rows_taken(cells, numbers, m);
        if table::rows_error(cells, numbers, m) is None {
            let k = m as int;
            assert(table::number_error(cells[k].ops, "OPS"@, numbers[k].ops) is None <==> sound_number(
                numbers[k].ops,
            ));
            assert(table::duration_error(cells[k].p95, numbers[k].p95) is None <==> sound_duration(
                cells[k].p95,
                numbers[k].p95,
            ));
            assert(table::duration_error(cells[k].p99, numbers[k].p99) is None <==> sound_duration(
                cells[k].p99,
                numbers[k].p99,
            ));
            if table::rows_error(cells, numbers, n) is None {
                assert forall|i: int, j: int| 0 <= i < j < n implies (#[trigger] cells[i]).label != (
                #[trigger] cells[j]).label by {}
            }
        }
    }
}

/// A row that is taken has the name and the numbers of its own cells: the rate under the rate, the
/// 95th percentile under the 95th, the 99th under the 99th; a dash counts as no time at all.
pub proof fn lemma_taken_row(row: NamedRow, cells: Cells, numbers: RowNumbers)
    requires
        table::holds(row, cells, numbers),
    ensures
        row.label@ == cells.label,
        numbers.ops == (Parsed::Number { figure: row.row.ops }),
        text::trim(cells.p95) != "-"@ ==> numbers.p95 == (Parsed::Number { figure: row.row.p95_ms }),
        text::trim(cells.p99) != "-"@ ==> numbers.p99 == (Parsed::Number { figure: row.row.p99_ms }),
        text::trim(cells.p95) == "-"@ ==> row.row.p95_ms.value.bits == 0 && row.row.p95_ms.fixed@
            == "0.00"@ && row.row.p95_ms.plain@ == "0"@,
        text::trim(cells.p99) == "-"@ ==> row.row.p99_ms.value.bits == 0 && row.row.p99_ms.fixed@
            == "0.00"@ && row.row.p99_ms.plain@ == "0"@,
{
}

/// The number of a duration cell is what stands before its unit.
pub proof fn lemma_duration_number(number: Seq<char>, cell: Seq<char>)
    requires
        number.len() > 0,
        !text::is_white(number.first()),
        !text::is_white(number.last()),
        text::trim(cell) == number + "ms"@,
    ensures
        table::duration_number(cell) == Some(number),
{
    reveal_strlit("ms");
    reveal_strlit("-");
    let t = number + "ms"@;
    assert(t.len() == number.len() + 2);
    assert(t.skip(t.len() - 2) =~= "ms"@);
    assert("ms"@.is_suffix_of(t)) by {
        assert(t.subrange(t.len() - 2, t.len() as int) =~= "ms"@);
    }
    assert(t != "-"@);
    assert(t.take(t.len() - 2) =~= number);
    words::lemma_trim_settles(number);
}

/// The phases have short names; a batch goes by its own.
pub proof fn lemma_phase_aliases(label: Seq<char>)
    ensures
        text::trim(label) == "[C]reate"@ ==> table::alias(label) == "put_c"@,
        text::trim(label) == "[R]eads"@ || text::trim(label) == "[R]ead"@ ==> table::alias(label)
            == "get_c"@,
        text::trim(label) == "[U]pdate"@ ==> table::alias(label) == "update_c"@,
        text::trim(label) == "[D]elete"@ ==> table::alias(label) == "delete_c"@,
{
    reveal_strlit("[C]reate");
    reveal_strlit("[R]eads");
    reveal_strlit("[R]ead");
    reveal_strlit("[U]pdate");
    reveal_strlit("[D]elete");
    assert("[C]reate"@[1] == 'C');
    assert("[R]eads"@[1] == 'R');
    assert("[R]ead"@[1] == 'R');
    assert("[U]pdate"@[1] == 'U');
    assert("[D]elete"@[1] == 'D');
}

proof fn lemma_first_white_at(s: Seq<char>)
    ensures
        table::first_white(s) <= s.len(),
        table::first_white(s) < s.len() ==> text::is_white(s[table::first_white(s) as int]),
        forall|i: int| 0 <= i < table::first_white(s) ==> !text::is_white(#[trigger] s[i]),
    decreases s.len(),
{
    if s.len() > 0 && !text::is_white(s.first()) {
        lemma_first_white_at(s.drop_first());
        assert forall|i: int| 0 <= i < table::first_white(s) implies !text::is_white(
            #[trigger] s[i],
        ) by {
            if i > 0 {
                assert(s.drop_first()[i - 1] == s[i]);
            }
        }
    }
}

/// A batch goes by the name behind its tag, up to the first white space.
pub proof fn lemma_batch_alias(label: Seq<char>, name: Seq<char>, rest: Seq<char>)
    requires
        name.len() > 0,
        forall|i: int| 0 <= i < name.len() ==> !text::is_white(#[trigger] name[i]),
        rest.len() > 0 ==> text::is_white(rest.first()),
        text::trim(label) == "[B]atch::"@ + name + rest,
    ensures
        table::alias(label) == name,
{
    reveal_strlit("[C]reate");
    reveal_strlit("[R]eads");
    reveal_strlit("[R]ead");
    reveal_strlit("[U]pdate");
    reveal_strlit("[D]elete");
    reveal_strlit("[B]atch::");
    let l = text::trim(label);
    let tag = "[B]atch::"@;
    assert(l[1] == 'B');
    assert(l != "[C]reate"@ && l != "[R]eads"@ && l != "[R]ead"@ && l != "[U]pdate"@ && l
        != "[D]elete"@) by {
        assert("[C]reate"@[1] == 'C' && "[R]eads"@[1] == 'R' && "[R]ead"@[1] == 'R' && "[U]pdate"@[1]
            == 'U' && "[D]elete"@[1] == 'D');
    }
    assert(tag.is_prefix_of(l)) by {
        assert(l.subrange(0, tag.len() as int) =~= tag);
    }
    let behind = l.skip(tag.len() as int);
    assert(behind =~= name + rest);
    assert(behind.first() == name[0]);
    assert(text::trim_front(behind) == behind);
    lemma_first_white_at(behind);
    let k = table::first_white(behind) as int;
    assert(k == name.len()) by {
        if k < name.len() {
            assert(behind[k] == name[k]);
        } else if k > name.len() {
            assert(behind[name.len() as int] == rest.first());
        }
    }
    assert(behind.take(k) =~= name);
}

/// Any other label is its own name.
pub proof fn lemma_other_alias(label: Seq<char>)
    requires
        text::trim(label).len() > 0,
        text::trim(label).first() != '[',
    ensures
        table::alias(label) == text::trim(label),
{
    reveal_strlit("[C]reate");
    reveal_strlit("[R]eads");
    reveal_strlit("[R]ead");
    reveal_strlit("[U]pdate");
    reveal_strlit("[D]elete");
    reveal_strlit("[B]atch::");
    assert("[C]reate"@[0] == '[' && "[R]eads"@[0] == '[' && "[R]ead"@[0] == '[' && "[U]pdate"@[0]
        == '[' && "[D]elete"@[0] == '[' && "[B]atch::"@[0] == '[');
}

/// A table is read exactly where its header could be and has all four columns: then its cells are
/// those of the records under the columns of these titles, up to the first bad record.
pub proof fn lemma_table_read(
    r: Result<RawTable, Failure>,
    header: Result<Seq<Seq<char>>, Seq<char>>,
    records: Seq<Result<Seq<Seq<char>>, Seq<char>>>,
)
    requires
        table::is_table(r, header, records),
        header matches Ok(fields) ==> fields.len() <= usize::MAX,
    ensures
        header is Err ==> r is Err && r->Err_0@ == "missing CSV header"@,
        header matches Ok(fields) ==> {
            &&& r is Ok <==> fields.contains("Test"@) && fields.contains("OPS"@) && fields.contains(
                "95th"@,
            ) && fields.contains("99th"@)
            &&& r matches Ok(read) ==> exists|c: Columns|
                {
                    &&& #[trigger] first_titled(fields, "Test"@, c.test as int)
                    &&& #[trigger] first_titled(fields, "OPS"@, c.ops as int)
                    &&& #[trigger] first_titled(fields, "95th"@, c.p95 as int)
                    &&& #[trigger] first_titled(fields, "99th"@, c.p99 as int)
                    &&& table::cells_of(read.rows@) == table::table_of(
                        records,
                        c,
                        records.len(),
                    ).0
                    &&& table::stop_view(read.stop) == table::table_of(
                        records,
                        c,
                        records.len(),
                    ).1
                }
        },
{
    if let Ok(fields) = header {
        lemma_columns_by_title(fields);
        if let Ok(c) = table::columns_of(fields) {
            assert(first_titled(fields, "Test"@, c.test as int));
            assert(first_titled(fields, "OPS"@, c.ops as int));
            assert(first_titled(fields, "95th"@, c.p95 as int));
            assert(first_titled(fields, "99th"@, c.p99 as int));
            assert(fields[c.test as int] == "Test"@ && fields[c.ops as int] == "OPS"@
                && fields[c.p95 as int] == "95th"@ && fields[c.p99 as int] == "99th"@);
        }
    }
}

/// The cells of the rows of a table, each under its own name.
pub proof fn lemma_cells(rows: Seq<RawRow>, i: int)
    requires
        0 <= i < rows.len(),
    ensures
        table::cells_of(rows).len() == rows.len(),
        table::cells_of(rows)[i].label == rows[i].label@,
        table::cells_of(rows)[i].ops == rows[i].ops@,
        table::cells_of(rows)[i].p95 == rows[i].p95@,
        table::cells_of(rows)[i].p99 == rows[i].p99@,
{
}

/// A table is refused for its first bad row, else for its first bad record.
pub proof fn lemma_table_refused(raw: RawTable, numbers: Seq<RowNumbers>)
    ensures
        table::table_error(raw, numbers) is None <==> raw.stop is None && table::rows_error(
            table::cells_of(raw.rows@),
            numbers,
            raw.rows@.len(),
        ) is None,
        table::rows_error(table::cells_of(raw.rows@), numbers, raw.rows@.len()) matches Some(e)
            ==> table::table_error(raw, numbers) == Some(e),
        table::rows_error(table::cells_of(raw.rows@), numbers, raw.rows@.len()) is None
            && raw.stop is Some ==> table::table_error(raw, numbers) == Some(raw.stop->0@),
{
}

/// What is said of a cell that holds no number: that it could not be read, or that it is no quantity,
/// with its kind and its text.
pub proof fn lemma_bad_cells(cell: Seq<char>, label: Seq<char>, parsed: Parsed)
    ensures
        table::number_error(cell, label, parsed) is None <==> sound_number(parsed),
        parsed is Unreadable ==> table::number_error(cell, label, parsed) == Some(
            "invalid "@ + label + " value "@ + figure::quoted_text(cell),
        ),
        parsed is Number && !sound_number(parsed) ==> table::number_error(cell, label, parsed)
            == Some(
            "invalid "@ + label + " value "@ + figure::quoted_text(cell)
                + ": must be a non-negative number"@,
        ),
        text::trim(cell) == "-"@ ==> table::duration_error(cell, parsed) is None,
        text::trim(cell) != "-"@ && !"ms"@.is_suffix_of(text::trim(cell)) ==> table::duration_error(
            cell,
            parsed,
        ) == Some("expected duration in ms, got "@ + figure::quoted_text(cell)),
        table::duration_number(cell) matches Some(number) ==> table::duration_error(cell, parsed)
            == table::number_error(number, "duration"@, parsed),
        table::duration_number(cell) is Some <==> text::trim(cell) != "-"@ && "ms"@.is_suffix_of(
            text::trim(cell),
        ),
{
}

/// A row is refused for its rate before its 95th percentile, for that before its 99th, and for its
/// label last.
pub proof fn lemma_row_refused(cells: Seq<Cells>, numbers: Seq<RowNumbers>, k: int)
    ensures
        ({
            let rate = table::number_error(cells[k].ops, "OPS"@, numbers[k].ops);
            let p95 = table::duration_error(cells[k].p95, numbers[k].p95);
            let p99 = table::duration_error(cells[k].p99, numbers[k].p99);
            let error = table::row_error(cells, numbers, k);
            &&& rate is Some ==> error == rate
            &&& rate is None && p95 is Some ==> error == p95
            &&& rate is None && p95 is None && p99 is Some ==> error == p99
            &&& rate is None && p95 is None && p99 is None ==> error == if exists|i: int|
                0 <= i < k && (#[trigger] cells[i]).label == cells[k].label {
                Some("duplicate row "@ + figure::quoted_text(cells[k].label) + " found in CSV"@)
            } else {
                None
            }
        }),
{
}

} // verus!
