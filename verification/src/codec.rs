//! The textual record in which a row is stored, and its reading back.
//!
//! A record is a `TIMESTAMP:` line, a `DATA:` line, and one line
//! `  <column>: <literal>` for each value.

use vstd::prelude::*;
use crate::schema::{schema_view, ColumnDefinition, ColumnView};
use crate::text::{
    append_chars, chars_of, decimal, decimal_chars, eq_ignore_case, equals_str_ignore_case, find,
    find_sub, has_char, i64_literal, lines, parse_i64, split_lines, starts_with, string_of, subvec,
    trim, trim_vec, vec_eq, vec_starts_with, views,
};
use crate::values::{
    is_float_literal, is_float_text, literal_text, push_literal, row_view, SqlValue, SqlValueView,
};

verus! {

// ---------------------------------------------------------------------------
// Writing
// ---------------------------------------------------------------------------

/// The name under which the value at index `i` is stored: the column's
/// name; `column_<i + 1>` where there is no schema; `extra_<k>` for the
/// `k`-th value beyond the schema.
pub open spec fn field_name(schema: Seq<ColumnView>, i: int) -> Seq<char> {
    if schema.len() == 0 {
        "column_"@ + decimal((i + 1) as nat)
    } else if i < schema.len() {
        schema[i].name
    } else {
        "extra_"@ + decimal((i - schema.len() + 1) as nat)
    }
}

/// One line of a record.
pub open spec fn record_line(name: Seq<char>, v: SqlValueView) -> Seq<char> {
    "  "@ + name + ": "@ + literal_text(v)
}

/// The first `n` value lines of a record, each after a line feed.
pub open spec fn record_lines(values: Seq<SqlValueView>, schema: Seq<ColumnView>, n: int) -> Seq<char>
    decreases n,
{
    if n <= 0 {
        Seq::empty()
    } else {
        record_lines(values, schema, n - 1) + "\n"@ + record_line(
            field_name(schema, n - 1),
            values[n - 1],
        )
    }
}

/// The record of a row that was created at `timestamp`.
pub open spec fn record_text(
    timestamp: Seq<char>,
    values: Seq<SqlValueView>,
    schema: Seq<ColumnView>,
) -> Seq<char> {
    "TIMESTAMP: "@ + timestamp + "\nDATA:"@ + record_lines(values, schema, values.len() as int)
}

/// Writes the record of a row that was created at `timestamp`.
pub fn encode_record(timestamp: &str, values: &[SqlValue], schema: &[ColumnDefinition]) -> (r:
    String)
    ensures
        r@ == record_text(timestamp@, row_view(values@), schema_view(schema@)),
        !has_char(timestamp@, '\n') && crate::record_laws::reads_back(
            row_view(values@),
            schema_view(schema@),
        ) ==> decode_record(r@, schema_view(schema@)) == Some(row_view(values@)),
{
    proof {
        if !has_char(timestamp@, '\n') && crate::record_laws::reads_back(
            row_view(values@),
            schema_view(schema@),
        ) {
            crate::record_laws::lemma_reads_back(
                timestamp@,
                row_view(values@),
                schema_view(schema@),
            );
        }
    }
    let mut m = String::from_str("TIMESTAMP: ");
    m.append(timestamp);
    m.append("\nDATA:");
    let ghost head = m@;
    let ghost vs = row_view(values@);
    let ghost cs = schema_view(schema@);
    let mut i: usize = 0;
    while i < values.len()
        invariant
            i <= values.len(),
            vs == row_view(values@),
            cs == schema_view(schema@),
            m@ == head + record_lines(vs, cs, i as int),
        decreases values.len() - i,
    {
        m.append("\n");
        m.append("  ");
        if schema.len() == 0 {
            m.append("column_");
            append_chars(&mut m, &decimal_chars((i + 1) as u64));
        } else if i < schema.len() {
            m.append(schema[i].name.as_str());
        } else {
            m.append("extra_");
            append_chars(&mut m, &decimal_chars((i - schema.len() + 1) as u64));
        }
        m.append(": ");
        push_literal(&mut m, &values[i]);
        i += 1;
    }
    m
}

/// The text that `chrono` writes for the UTC date and time at `seconds`
/// after the Unix epoch, in the form `%Y-%m-%d %H:%M:%S UTC`; `None` where
/// the date is out of its range.
pub uninterp spec fn utc_timestamp_text(seconds: i64) -> Option<Seq<char>>;

/// The view of an optional string.
pub open spec fn option_text(s: Option<String>) -> Option<Seq<char>> {
    match s {
        Some(t) => Some(t@),
        None => None,
    }
}

/// `chrono::DateTime::from_timestamp`, then `DateTime::format` with the
/// pattern `%Y-%m-%d %H:%M:%S UTC`. The text depends on `seconds` alone;
/// the pattern holds no line feed and no item that writes one, so the text
/// has none.
#[verifier::external_body]
fn utc_timestamp(seconds: i64) -> (r: Option<String>)
    ensures
        option_text(r) == utc_timestamp_text(seconds),
        r matches Some(t) ==> !has_char(t@, '\n'),
{
    match chrono::DateTime::from_timestamp(seconds, 0) {
        Some(t) => Some(t.format("%Y-%m-%d %H:%M:%S UTC").to_string()),
        None => None,
    }
}

/// Writes the record of a row that was created `seconds` after the Unix
/// epoch. `None` where that moment is beyond the calendar's range.
pub fn format_sql_values_for_storage(
    values: &[SqlValue],
    schema: &[ColumnDefinition],
    seconds: i64,
) -> (r: Option<String>)
    ensures
        option_text(r) == match utc_timestamp_text(seconds) {
            Some(t) => Some(record_text(t, row_view(values@), schema_view(schema@))),
            None => None,
        },
        r matches Some(record) ==> (crate::record_laws::reads_back(
            row_view(values@),
            schema_view(schema@),
        ) ==> decode_record(record@, schema_view(schema@)) == Some(row_view(values@))),
{
    match utc_timestamp(seconds) {
        Some(t) => Some(encode_record(t.as_str(), values, schema)),
        None => None,
    }
}

// ---------------------------------------------------------------------------
// Reading
// ---------------------------------------------------------------------------

/// `t` stands between two quotes of the kind `q`.
pub open spec fn is_quoted(t: Seq<char>, q: char) -> bool {
    t.len() >= 2 && t[0] == q && t.last() == q
}

/// The value that a stored literal stands for: `null`, `true` and `false`
/// in any ASCII case; a text between single or double quotes, taken as it
/// stands; an integer; a floating-point number; and any other text as a
/// string.
pub open spec fn stored_value(text: Seq<char>) -> SqlValueView {
    let t = trim(text);
    if eq_ignore_case(t, "null"@) {
        SqlValueView::Null
    } else if eq_ignore_case(t, "true"@) {
        SqlValueView::Boolean(true)
    } else if eq_ignore_case(t, "false"@) {
        SqlValueView::Boolean(false)
    } else if is_quoted(t, '\'') || is_quoted(t, '"') {
        SqlValueView::String(t.subrange(1, t.len() - 1))
    } else {
        match i64_literal(t) {
            Some(v) => SqlValueView::Integer(v),
            None => if is_float_text(t) {
                SqlValueView::Float(t)
            } else {
                SqlValueView::String(t)
            },
        }
    }
}


fn stored_value_of(text: &Vec<char>) -> (r: SqlValue)
    ensures
        r@ == stored_value(text@),
{
    let t = trim_vec(text);
    if equals_str_ignore_case(&t, "null") {
        SqlValue::Null
    } else if equals_str_ignore_case(&t, "true") {
        SqlValue::Boolean(true)
    } else if equals_str_ignore_case(&t, "false") {
        SqlValue::Boolean(false)
    } else if t.len() >= 2 && ((t[0] == '\'' && t[t.len() - 1] == '\'') || (t[0] == '"' && t[t.len()
        - 1] == '"')) {
        SqlValue::String(string_of(&subvec(&t, 1, t.len() - 1)))
    } else {
        match parse_i64(&t) {
            Some(v) => SqlValue::Integer(v),
            None => if is_float_literal(&t) {
                SqlValue::Float(string_of(&t))
            } else {
                SqlValue::String(string_of(&t))
            },
        }
    }
}

/// Reads a stored literal back into a value.
pub fn parse_stored_value(value_str: &str) -> (r: SqlValue)
    ensures
        r@ == stored_value(value_str@),
{
    let chars = chars_of(value_str);
    stored_value_of(&chars)
}

/// The name and the value of a record line: the line starts with two
/// spaces, the name runs to the first `: `, the literal follows it.
/// `None` for any other line.
pub open spec fn parse_line(line: Seq<char>) -> Option<(Seq<char>, SqlValueView)> {
    let sep = find(line, ": "@);
    if starts_with(line, "  "@) && 2 <= sep && sep + 2 <= line.len() {
        Some((trim(line.subrange(2, sep)), stored_value(line.skip(sep + 2))))
    } else {
        None
    }
}

/// The names and values of the record lines among `lines`, in order.
pub open spec fn record_entries(lines: Seq<Seq<char>>) -> Seq<(Seq<char>, SqlValueView)>
    decreases lines.len(),
{
    if lines.len() == 0 {
        Seq::empty()
    } else {
        let rest = record_entries(lines.drop_last());
        match parse_line(lines.last()) {
            Some(entry) => rest.push(entry),
            None => rest,
        }
    }
}

/// The value that was stored last under `name`.
pub open spec fn lookup(entries: Seq<(Seq<char>, SqlValueView)>, name: Seq<char>) -> Option<
    SqlValueView,
>
    decreases entries.len(),
{
    if entries.len() == 0 {
        None
    } else if entries.last().0 == name {
        Some(entries.last().1)
    } else {
        lookup(entries.drop_last(), name)
    }
}

/// The values of the first `n` columns of `schema`, each looked up under
/// its column's name; `None` where a column has no entry.
pub open spec fn reorder(entries: Seq<(Seq<char>, SqlValueView)>, schema: Seq<ColumnView>, n: int) -> Option<
    Seq<SqlValueView>,
>
    decreases n,
{
    if n <= 0 {
        Some(Seq::empty())
    } else {
        match reorder(entries, schema, n - 1) {
            None => None,
            Some(values) => match lookup(entries, schema[n - 1].name) {
                None => None,
                Some(v) => Some(values.push(v)),
            },
        }
    }
}

/// A later entry than `from - 1` bears `name`.
pub open spec fn named_from(entries: Seq<(Seq<char>, SqlValueView)>, name: Seq<char>, from: int) -> bool {
    exists|j: int| from <= j < entries.len() && (#[trigger] entries[j]).0 == name
}

/// The values of the entries from `i` on that no later entry overrides.
pub open spec fn latest_values(entries: Seq<(Seq<char>, SqlValueView)>, i: int) -> Seq<SqlValueView>
    decreases entries.len() - i,
{
    if i < 0 || i >= entries.len() {
        Seq::empty()
    } else if named_from(entries, entries[i].0, i + 1) {
        latest_values(entries, i + 1)
    } else {
        seq![entries[i].1] + latest_values(entries, i + 1)
    }
}

/// The row that a record holds.
///
/// The record's data are the lines behind the first `DATA:` line. With a
/// schema the row has the value stored under each column's name, in the
/// order of the schema, and there is no row where a column is missing.
/// Without a schema the row has the values in the order of their lines,
/// where of two lines with one name only the later counts. A text without
/// a `DATA:` line holds no row.
pub open spec fn decode_record(content: Seq<char>, schema: Seq<ColumnView>) -> Option<Seq<SqlValueView>> {
    let start = find(content, "DATA:\n"@);
    if 0 <= start && start + 6 <= content.len() {
        let entries = record_entries(lines(content.skip(start + 6)));
        if schema.len() > 0 {
            reorder(entries, schema, schema.len() as int)
        } else {
            Some(latest_values(entries, 0))
        }
    } else {
        None
    }
}

/// The views of a vector of entries.
pub open spec fn entries_view(entries: Seq<(Vec<char>, SqlValue)>) -> Seq<(Seq<char>, SqlValueView)> {
    Seq::new(entries.len(), |i: int| (entries[i].0@, entries[i].1@))
}

/// The view of an optional row.
pub open spec fn option_row_view(r: Option<Vec<SqlValue>>) -> Option<Seq<SqlValueView>> {
    match r {
        Some(row) => Some(row_view(row@)),
        None => None,
    }
}

fn read_line(line: &Vec<char>) -> (r: Option<(Vec<char>, SqlValue)>)
    ensures
        match r {
            Some(entry) => parse_line(line@) == Some((entry.0@, entry.1@)),
            None => parse_line(line@) is None,
        },
{
    let indent = chars_of("  ");
    let separator = chars_of(": ");
    if !vec_starts_with(line, &indent) {
        return None;
    }
    match find_sub(line, &separator) {
        Some(sep) => {
            proof {
                reveal_strlit(": ");
                reveal_strlit("  ");
            }
            if sep < 2 {
                return None;
            }
            let name = trim_vec(&subvec(line, 2, sep));
            let literal = subvec(line, sep + 2, line.len());
            Some((name, stored_value_of(&literal)))
        },
        None => None,
    }
}

fn read_entries(all: &Vec<Vec<char>>) -> (r: Vec<(Vec<char>, SqlValue)>)
    ensures
        entries_view(r@) == record_entries(views(all@)),
{
    let mut entries: Vec<(Vec<char>, SqlValue)> = Vec::new();
    let mut i: usize = 0;
    let ghost ls = views(all@);
    while i < all.len()
        invariant
            i <= all.len(),
            ls == views(all@),
            entries_view(entries@) == record_entries(ls.take(i as int)),
        decreases all.len() - i,
    {
        let ghost done = ls.take(i + 1);
        assert(done.drop_last() =~= ls.take(i as int));
        match read_line(&all[i]) {
            Some(entry) => {
                entries.push(entry);
            },
            None => {},
        }
        i += 1;
    }
    assert(ls.take(all.len() as int) =~= ls);
    entries
}

fn find_entry(entries: &Vec<(Vec<char>, SqlValue)>, name: &Vec<char>) -> (r: Option<SqlValue>)
    ensures
        match r {
            Some(v) => lookup(entries_view(entries@), name@) == Some(v@),
            None => lookup(entries_view(entries@), name@) is None,
        },
{
    let ghost es = entries_view(entries@);
    let mut i: usize = entries.len();
    assert(es.take(i as int) =~= es);
    while i > 0
        invariant
            i <= entries.len(),
            es == entries_view(entries@),
            lookup(es, name@) == lookup(es.take(i as int), name@),
        decreases i,
    {
        let ghost cur = es.take(i as int);
        assert(cur.drop_last() =~= es.take(i - 1));
        if vec_eq(&entries[i - 1].0, name) {
            return Some(entries[i - 1].1.duplicate());
        }
        i -= 1;
    }
    None
}

fn is_named_from(entries: &Vec<(Vec<char>, SqlValue)>, name: &Vec<char>, from: usize) -> (r: bool)
    ensures
        r == named_from(entries_view(entries@), name@, from as int),
{
    let ghost es = entries_view(entries@);
    let mut j: usize = from;
    while j < entries.len()
        invariant
            from <= j,
            es == entries_view(entries@),
            forall|k: int| from <= k < j && k < es.len() ==> (#[trigger] es[k]).0 != name@,
        decreases entries.len() - j,
    {
        if vec_eq(&entries[j].0, name) {
            assert(es[j as int].0 == name@);
            return true;
        }
        j += 1;
    }
    false
}

/// Reads the row of a record back, in the order of `schema`.
pub fn extract_values_from_message(content: &str, schema: &[ColumnDefinition]) -> (r: Option<
    Vec<SqlValue>,
>)
    ensures
        option_row_view(r) == decode_record(content@, schema_view(schema@)),
{
    let chars = chars_of(content);
    let marker = chars_of("DATA:\n");
    proof {
        reveal_strlit("DATA:\n");
    }
    let start = match find_sub(&chars, &marker) {
        Some(i) => i,
        None => {
            return None;
        },
    };
    let all = split_lines(&chars, start + 6);
    let entries = read_entries(&all);
    let ghost es = entries_view(entries@);
    let ghost cs = schema_view(schema@);
    let mut row: Vec<SqlValue> = Vec::new();
    if schema.len() > 0 {
        let mut i: usize = 0;
        while i < schema.len()
            invariant
                i <= schema.len(),
                es == entries_view(entries@),
                cs == schema_view(schema@),
                decode_record(content@, cs) == reorder(es, cs, schema.len() as int),
                reorder(es, cs, i as int) == Some(row_view(row@)),
            decreases schema.len() - i,
        {
            let name = chars_of(schema[i].name.as_str());
            match find_entry(&entries, &name) {
                Some(v) => {
                    row.push(v);
                },
                None => {
                    proof {
                        lemma_reorder_none(es, cs, i + 1, schema.len() as int);
                    }
                    return None;
                },
            }
            i += 1;
        }
        Some(row)
    } else {
        let mut i: usize = 0;
        while i < entries.len()
            invariant
                i <= entries.len(),
                es == entries_view(entries@),
                latest_values(es, 0) == row_view(row@) + latest_values(es, i as int),
            decreases entries.len() - i,
        {
            if !is_named_from(&entries, &entries[i].0, i + 1) {
                let v = entries[i].1.duplicate();
                row.push(v);
            }
            i += 1;
        }
        Some(row)
    }
}

/// Once a column has no entry, no longer prefix of the schema can be
/// reordered.
pub proof fn lemma_reorder_none(
    entries: Seq<(Seq<char>, SqlValueView)>,
    schema: Seq<ColumnView>,
    k: int,
    n: int,
)
    requires
        0 <= k <= n,
        reorder(entries, schema, k) is None,
    ensures
        reorder(entries, schema, n) is None,
    decreases n - k,
{
    if k < n {
        lemma_reorder_none(entries, schema, k, n - 1);
    }
}

} // verus!
