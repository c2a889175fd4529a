//! Laws of the record format: what is written is read back.

use vstd::prelude::*;
use crate::codec::{
    decode_record, field_name, is_quoted, latest_values, lookup, named_from, parse_line,
    record_entries, record_line, record_lines, record_text, reorder, stored_value,
};
use crate::schema::ColumnView;
use crate::text::{
    decimal, eq_ignore_case, find, has_char, index_of, int_text, is_digit, is_whitespace,
    lemma_decimal, lemma_find, lemma_index_of, lemma_index_of_at, lemma_int_text_roundtrip, lines,
    lower, matches_at, starts_with, to_lower, trim,
};
use crate::values::{
    is_decimal_number, is_exponent, is_float_text, is_mantissa, is_parsed_value, literal_text,
    unsigned_part, SqlValueView,
};

verus! {

// ---------------------------------------------------------------------------
// Values
// ---------------------------------------------------------------------------

/// A character that a floating-point literal may hold.
pub open spec fn is_float_char(c: char) -> bool {
    let l = to_lower(c);
    is_digit(c) || c == '.' || c == '+' || c == '-' || l == 'e' || l == 'i' || l == 'n' || l == 'f'
        || l == 't' || l == 'y' || l == 'a'
}

/// A value that a record can hold on one line: a parsed value whose text,
/// where it is a string, has no line feed.
pub open spec fn is_storable(v: SqlValueView) -> bool {
    match v {
        SqlValueView::String(s) => !has_char(s, '\n'),
        _ => is_parsed_value(v),
    }
}

/// A text that starts and ends with characters that are no whitespace is
/// its own trimmed form.
pub proof fn lemma_trim_identity(s: Seq<char>)
    requires
        s.len() == 0 || (!is_whitespace(s[0]) && !is_whitespace(s.last())),
    ensures
        trim(s) == s,
{
}

proof fn lemma_mantissa_chars(m: Seq<char>)
    requires
        is_mantissa(m),
    ensures
        m.len() >= 1,
        forall|i: int| 0 <= i < m.len() ==> is_digit(#[trigger] m[i]) || m[i] == '.',
{
    lemma_index_of(m, '.');
    let dot = index_of(m, '.');
    if 0 <= dot < m.len() {
        assert forall|i: int| 0 <= i < m.len() implies is_digit(#[trigger] m[i]) || m[i] == '.' by {
            if i < dot {
                assert(m.take(dot)[i] == m[i]);
            } else if i > dot {
                assert(m.skip(dot + 1)[i - dot - 1] == m[i]);
            }
        }
    }
}

proof fn lemma_exponent_chars(x: Seq<char>)
    requires
        is_exponent(x),
    ensures
        x.len() >= 1,
        forall|i: int|
            0 <= i < x.len() ==> is_digit(#[trigger] x[i]) || x[i] == '+' || x[i] == '-',
{
    let d = unsigned_part(x);
    assert forall|i: int| 0 <= i < x.len() implies is_digit(#[trigger] x[i]) || x[i] == '+' || x[i]
        == '-' by {
        if d.len() == x.len() {
            assert(d[i] == x[i]);
        } else if i > 0 {
            assert(d[i - 1] == x[i]);
        }
    }
}

/// Every character of a floating-point literal is one that such a literal
/// may hold, and the literal is not empty.
pub proof fn lemma_float_chars(t: Seq<char>)
    requires
        is_float_text(t),
    ensures
        t.len() >= 1,
        forall|i: int| 0 <= i < t.len() ==> is_float_char(#[trigger] t[i]),
{
    reveal_strlit("inf");
    reveal_strlit("infinity");
    reveal_strlit("nan");
    let body = unsigned_part(t);
    let l = lower(body);
    assert(body.len() >= 1 && forall|i: int| 0 <= i < body.len() ==> is_float_char(#[trigger] body[i]))
        by {
        if l == "inf"@ || l == "infinity"@ || l == "nan"@ {
            assert forall|i: int| 0 <= i < body.len() implies is_float_char(#[trigger] body[i]) by {
                assert(l[i] == to_lower(body[i]));
                if l == "inf"@ {
                    assert(l.len() == 3);
                    assert(l[i] == 'i' || l[i] == 'n' || l[i] == 'f');
                } else if l == "infinity"@ {
                    assert(l.len() == 8);
                    assert(l[i] == 'i' || l[i] == 'n' || l[i] == 'f' || l[i] == 't' || l[i] == 'y');
                } else {
                    assert(l.len() == 3);
                    assert(l[i] == 'n' || l[i] == 'a');
                }
            }
        } else {
            assert(is_decimal_number(body));
            lemma_index_of(l, 'e');
            let e = index_of(l, 'e');
            if 0 <= e < body.len() {
                lemma_mantissa_chars(body.take(e));
                lemma_exponent_chars(body.skip(e + 1));
                assert forall|i: int| 0 <= i < body.len() implies is_float_char(
                    #[trigger] body[i],
                ) by {
                    if i < e {
                        assert(body.take(e)[i] == body[i]);
                    } else if i == e {
                        assert(l[e] == to_lower(body[e]));
                    } else {
                        assert(body.skip(e + 1)[i - e - 1] == body[i]);
                    }
                }
            } else {
                lemma_mantissa_chars(body);
            }
        }
    }
    assert forall|i: int| 0 <= i < t.len() implies is_float_char(#[trigger] t[i]) by {
        if body.len() == t.len() {
            assert(body[i] == t[i]);
        } else if i > 0 {
            assert(body[i - 1] == t[i]);
        }
    }
}

/// A text whose characters are all floating-point characters is none of
/// the words `null`, `true` and `false`, has no whitespace and no quote.
proof fn lemma_float_text_is_plain(t: Seq<char>)
    requires
        t.len() >= 1,
        forall|i: int| 0 <= i < t.len() ==> is_float_char(#[trigger] t[i]),
    ensures
        trim(t) == t,
        !eq_ignore_case(t, "null"@),
        !eq_ignore_case(t, "true"@),
        !eq_ignore_case(t, "false"@),
        !is_quoted(t, '\''),
        !is_quoted(t, '"'),
{
    reveal_strlit("null");
    reveal_strlit("true");
    reveal_strlit("false");
    assert(is_float_char(t[0]));
    assert(is_float_char(t.last()));
    lemma_trim_identity(t);
    if eq_ignore_case(t, "null"@) {
        assert(lower(t).len() == lower("null"@).len());
        assert(lower(t)[1] == lower("null"@)[1]);
        assert(is_float_char(t[1]));
    }
    if eq_ignore_case(t, "true"@) {
        assert(lower(t).len() == lower("true"@).len());
        assert(lower(t)[1] == lower("true"@)[1]);
        assert(is_float_char(t[1]));
    }
    if eq_ignore_case(t, "false"@) {
        assert(lower(t).len() == lower("false"@).len());
        assert(lower(t)[2] == lower("false"@)[2]);
        assert(is_float_char(t[2]));
    }
}

/// The decimal writing of an integer is made of floating-point characters.
proof fn lemma_int_text_chars(v: int)
    ensures
        int_text(v).len() >= 1,
        forall|i: int| 0 <= i < int_text(v).len() ==> is_float_char(#[trigger] int_text(v)[i]),
{
    if v < 0 {
        lemma_decimal((-v) as nat);
        let d = decimal((-v) as nat);
        assert forall|i: int| 0 <= i < int_text(v).len() implies is_float_char(
            #[trigger] int_text(v)[i],
        ) by {
            if i > 0 {
                assert(int_text(v)[i] == d[i - 1]);
                assert(is_digit(d[i - 1]));
            }
        }
    } else {
        lemma_decimal(v as nat);
        let d = decimal(v as nat);
        assert forall|i: int| 0 <= i < int_text(v).len() implies is_float_char(
            #[trigger] int_text(v)[i],
        ) by {
            assert(is_digit(d[i]));
        }
    }
}

/// The literal of a parsed value reads back as the value.
pub proof fn lemma_stored_literal(v: SqlValueView)
    requires
        is_parsed_value(v),
    ensures
        stored_value(literal_text(v)) == v,
{
    reveal_strlit("null");
    reveal_strlit("true");
    reveal_strlit("false");
    reveal_strlit("NULL");
    reveal_strlit("'");
    let t = literal_text(v);
    match v {
        SqlValueView::Integer(i) => {
            lemma_int_text_chars(i as int);
            lemma_float_text_is_plain(t);
            lemma_int_text_roundtrip(i as int);
        },
        SqlValueView::Float(f) => {
            lemma_float_chars(f);
            lemma_float_text_is_plain(f);
        },
        SqlValueView::String(s) => {
            assert(t.len() == s.len() + 2);
            assert(t[0] == '\'');
            assert(t.last() == '\'');
            lemma_trim_identity(t);
            assert(t.subrange(1, t.len() - 1) =~= s);
            if eq_ignore_case(t, "null"@) {
                assert(lower(t)[0] == lower("null"@)[0]);
            }
            if eq_ignore_case(t, "true"@) {
                assert(lower(t)[0] == lower("true"@)[0]);
            }
            if eq_ignore_case(t, "false"@) {
                assert(lower(t)[0] == lower("false"@)[0]);
            }
        },
        SqlValueView::Boolean(b) => {
            lemma_trim_identity(t);
            if b {
                if eq_ignore_case(t, "null"@) {
                    assert(lower(t)[0] == lower("null"@)[0]);
                }
            } else {
                if eq_ignore_case(t, "null"@) {
                    assert(lower(t).len() == lower("null"@).len());
                }
                if eq_ignore_case(t, "true"@) {
                    assert(lower(t).len() == lower("true"@).len());
                }
            }
        },
        SqlValueView::Null => {
            lemma_trim_identity(t);
            assert(lower(t) =~= lower("null"@));
        },
    }
}

// ---------------------------------------------------------------------------
// Lines
// ---------------------------------------------------------------------------

/// A name without whitespace.
pub open spec fn is_plain_name(name: Seq<char>) -> bool {
    forall|i: int| 0 <= i < name.len() ==> !is_whitespace(#[trigger] name[i])
}

/// The line of a storable value under a plain name reads back as the name
/// and the value.
pub proof fn lemma_line_roundtrip(name: Seq<char>, v: SqlValueView)
    requires
        is_plain_name(name),
        is_storable(v),
    ensures
        parse_line(record_line(name, v)) == Some((name, v)),
        record_line(name, v).len() >= 4,
        !has_char(record_line(name, v), '\n'),
        record_line(name, v).last() != '\r',
{
    reveal_strlit("  ");
    reveal_strlit(": ");
    reveal_strlit("'");
    reveal_strlit("true");
    reveal_strlit("false");
    reveal_strlit("NULL");
    let lit = literal_text(v);
    let line = record_line(name, v);
    let k: int = name.len() as int + 2;
    assert(line.len() == k + 2 + lit.len());
    assert forall|i: int| 0 <= i < line.len() implies #[trigger] line[i] == (if i < 2 {
        ' '
    } else if i < k {
        name[i - 2]
    } else if i == k {
        ':'
    } else if i == k + 1 {
        ' '
    } else {
        lit[i - k - 2]
    }) by {}
    assert(line.take(2) =~= "  "@);
    assert(line.subrange(k, k + 2) =~= ": "@);
    assert forall|i: int| 0 <= i < k implies !matches_at(line, ": "@, i) by {
        if matches_at(line, ": "@, i) {
            assert(line.subrange(i, i + 2)[0] == ':');
            assert(line.subrange(i, i + 2)[1] == ' ');
            assert(line[i] == ':');
            assert(line[i + 1] == ' ');
            if 2 <= i && i + 1 < k {
                assert(is_whitespace(name[i + 1 - 2]));
            }
        }
    }
    crate::text::lemma_find_at(line, ": "@, k);
    assert(line.subrange(2, k) =~= name);
    if name.len() > 0 {
        assert(!is_whitespace(name[0]));
        assert(!is_whitespace(name.last()));
    }
    lemma_trim_identity(name);
    assert(line.skip(k + 2) =~= lit);
    lemma_stored_literal(v);
    // the literal has no line feed and does not end with a carriage return
    assert(lit.len() >= 1 && !has_char(lit, '\n') && lit.last() != '\r') by {
        match v {
            SqlValueView::Integer(i) => {
                lemma_int_text_chars(i as int);
                assert(is_float_char(lit.last()));
                if has_char(lit, '\n') {
                    let j = choose|j: int| 0 <= j < lit.len() && lit[j] == '\n';
                    assert(is_float_char(lit[j]));
                }
            },
            SqlValueView::Float(f) => {
                lemma_float_chars(f);
                assert(is_float_char(lit.last()));
                if has_char(lit, '\n') {
                    let j = choose|j: int| 0 <= j < lit.len() && lit[j] == '\n';
                    assert(is_float_char(lit[j]));
                }
            },
            SqlValueView::String(t) => {
                assert(lit.len() == t.len() + 2);
                assert(lit.last() == '\'');
                if has_char(lit, '\n') {
                    let j = choose|j: int| 0 <= j < lit.len() && lit[j] == '\n';
                    assert(0 < j < lit.len() - 1);
                    assert(lit[j] == t[j - 1]);
                }
            },
            SqlValueView::Boolean(b) => {
                if has_char(lit, '\n') {
                    let j = choose|j: int| 0 <= j < lit.len() && lit[j] == '\n';
                }
            },
            SqlValueView::Null => {
                if has_char(lit, '\n') {
                    let j = choose|j: int| 0 <= j < lit.len() && lit[j] == '\n';
                }
            },
        }
    }
    assert(line.last() == lit.last());
    if has_char(line, '\n') {
        let j = choose|j: int| 0 <= j < line.len() && line[j] == '\n';
        if 2 <= j < k {
            assert(is_whitespace(name[j - 2]));
        } else if j >= k + 2 {
            assert(lit[j - k - 2] == '\n');
        }
    }
}

/// The text of the lines from `k` on, with a line feed between each two.
pub open spec fn lines_text(ls: Seq<Seq<char>>, k: int) -> Seq<char>
    decreases ls.len() - k,
{
    if k < 0 || k >= ls.len() {
        Seq::empty()
    } else if k == ls.len() - 1 {
        ls[k]
    } else {
        ls[k] + seq!['\n'] + lines_text(ls, k + 1)
    }
}

/// A line that is not empty, has no line feed and no carriage return at its
/// end.
pub open spec fn is_line(l: Seq<char>) -> bool {
    l.len() > 0 && !has_char(l, '\n') && l.last() != '\r'
}

/// A text without a line feed is its own single line.
pub proof fn lemma_lines_single(a: Seq<char>)
    requires
        a.len() > 0,
        !has_char(a, '\n'),
    ensures
        lines(a) == seq![a],
{
    lemma_index_of(a, '\n');
}

/// The lines of a line, a line feed and a rest are the line and the lines
/// of the rest.
pub proof fn lemma_lines_head(a: Seq<char>, rest: Seq<char>)
    requires
        !has_char(a, '\n'),
        a.len() == 0 || a.last() != '\r',
    ensures
        lines(a + seq!['\n'] + rest) == seq![a] + lines(rest),
{
    let s = a + seq!['\n'] + rest;
    assert(s[a.len() as int] == '\n');
    assert forall|i: int| 0 <= i < a.len() implies s[i] != '\n' by {
        assert(s[i] == a[i]);
    }
    lemma_index_of_at(s, '\n', a.len() as int);
    assert(s.take(a.len() as int) =~= a);
    assert(s.skip(a.len() as int + 1) =~= rest);
}

/// Splitting the text of lines gives the lines back.
pub proof fn lemma_lines_of_text(ls: Seq<Seq<char>>, k: int)
    requires
        0 <= k <= ls.len(),
        forall|i: int| 0 <= i < ls.len() ==> is_line(#[trigger] ls[i]),
    ensures
        lines(lines_text(ls, k)) == ls.skip(k),
    decreases ls.len() - k,
{
    if k >= ls.len() {
        assert(ls.skip(k) =~= Seq::<Seq<char>>::empty());
    } else if k == ls.len() - 1 {
        assert(is_line(ls[k]));
        lemma_lines_single(ls[k]);
        assert(ls.skip(k) =~= seq![ls[k]]);
    } else {
        assert(is_line(ls[k]));
        lemma_lines_of_text(ls, k + 1);
        lemma_lines_head(ls[k], lines_text(ls, k + 1));
        assert(ls.skip(k) =~= seq![ls[k]] + ls.skip(k + 1));
    }
}

/// The lines of the first `n` values of a row.
pub open spec fn row_lines(values: Seq<SqlValueView>, schema: Seq<ColumnView>, n: int) -> Seq<Seq<char>> {
    Seq::new(n as nat, |i: int| record_line(field_name(schema, i), values[i]))
}

/// The value lines of a record are a line feed and the text of the lines.
pub proof fn lemma_record_lines_text(values: Seq<SqlValueView>, schema: Seq<ColumnView>, n: int, k: int)
    requires
        0 <= k < n,
    ensures
        record_lines(values, schema, n) == record_lines(values, schema, k) + seq!['\n'] + lines_text(
            row_lines(values, schema, n),
            k,
        ),
    decreases n - k,
{
    reveal_strlit("\n");
    assert("\n"@ =~= seq!['\n']);
    let ls = row_lines(values, schema, n);
    if k == n - 1 {
        assert(lines_text(ls, k) == ls[k]);
    } else {
        lemma_record_lines_text(values, schema, n, k + 1);
        let line = record_line(field_name(schema, k), values[k]);
        assert(ls[k] == line);
        assert(record_lines(values, schema, k + 1) == record_lines(values, schema, k) + "\n"@ + line);
        assert((record_lines(values, schema, k) + seq!['\n'] + line) + seq!['\n'] + lines_text(
            ls,
            k + 1,
        ) =~= record_lines(values, schema, k) + seq!['\n'] + (line + seq!['\n'] + lines_text(
            ls,
            k + 1,
        )));
    }
}

// ---------------------------------------------------------------------------
// Entries
// ---------------------------------------------------------------------------

/// Lines that each read as an entry give the entries, in order.
pub proof fn lemma_entries_of_lines(ls: Seq<Seq<char>>, es: Seq<(Seq<char>, SqlValueView)>)
    requires
        ls.len() == es.len(),
        forall|i: int| 0 <= i < ls.len() ==> parse_line(#[trigger] ls[i]) == Some(es[i]),
    ensures
        record_entries(ls) == es,
    decreases ls.len(),
{
    if ls.len() > 0 {
        lemma_entries_of_lines(ls.drop_last(), es.drop_last());
        assert(parse_line(ls.last()) == Some(es.last()));
        assert(es.drop_last().push(es.last()) =~= es);
    } else {
        assert(es =~= Seq::empty());
    }
}

/// A line that reads as no entry adds nothing before the others.
pub proof fn lemma_entries_skip_head(x: Seq<char>, ls: Seq<Seq<char>>)
    requires
        parse_line(x) is None,
    ensures
        record_entries(seq![x] + ls) == record_entries(ls),
    decreases ls.len(),
{
    let all = seq![x] + ls;
    if ls.len() == 0 {
        assert(all.drop_last() =~= Seq::<Seq<char>>::empty());
        assert(all.last() == x);
        assert(ls =~= Seq::<Seq<char>>::empty());
        assert(record_entries(all.drop_last()) == Seq::<(Seq<char>, SqlValueView)>::empty());
        assert(record_entries(all) == record_entries(all.drop_last()));
    } else {
        assert(record_entries(all) == match parse_line(all.last()) {
            Some(entry) => record_entries(all.drop_last()).push(entry),
            None => record_entries(all.drop_last()),
        });
        assert(all.drop_last() =~= seq![x] + ls.drop_last());
        assert(all.last() == ls.last());
        lemma_entries_skip_head(x, ls.drop_last());
    }
}

/// Among entries with distinct names, the value under the name of an entry
/// is the value of that entry.
pub proof fn lemma_lookup_distinct(es: Seq<(Seq<char>, SqlValueView)>, k: int, m: int)
    requires
        0 <= k < m <= es.len(),
        forall|i: int, j: int| 0 <= i < j < es.len() ==> es[i].0 != es[j].0,
    ensures
        lookup(es.take(m), es[k].0) == Some(es[k].1),
    decreases m,
{
    let cur = es.take(m);
    assert(cur.last() == es[m - 1]);
    if m - 1 != k {
        assert(es[k].0 != es[m - 1].0);
        assert(cur.drop_last() =~= es.take(m - 1));
        lemma_lookup_distinct(es, k, m - 1);
    }
}

/// Entries with the names of the schema, distinct and in its order, are
/// reordered into their own values.
pub proof fn lemma_reorder_own(es: Seq<(Seq<char>, SqlValueView)>, schema: Seq<ColumnView>, m: int)
    requires
        0 <= m <= es.len(),
        es.len() == schema.len(),
        forall|i: int| 0 <= i < es.len() ==> (#[trigger] es[i]).0 == schema[i].name,
        forall|i: int, j: int| 0 <= i < j < es.len() ==> es[i].0 != es[j].0,
    ensures
        reorder(es, schema, m) == Some(Seq::new(m as nat, |i: int| es[i].1)),
    decreases m,
{
    if m > 0 {
        lemma_reorder_own(es, schema, m - 1);
        lemma_lookup_distinct(es, m - 1, es.len() as int);
        assert(es.take(es.len() as int) =~= es);
        assert(es[m - 1].0 == schema[m - 1].name);
        assert(Seq::new((m - 1) as nat, |i: int| es[i].1).push(es[m - 1].1) =~= Seq::new(
            m as nat,
            |i: int| es[i].1,
        ));
    } else {
        assert(Seq::new(0, |i: int| es[i].1) =~= Seq::<SqlValueView>::empty());
    }
}

// ---------------------------------------------------------------------------
// Records
// ---------------------------------------------------------------------------

/// A schema under which rows can be stored: it has a column, no column's
/// name holds whitespace, and no two columns share a name.
pub open spec fn is_storable_schema(schema: Seq<ColumnView>) -> bool {
    &&& schema.len() > 0
    &&& forall|i: int| 0 <= i < schema.len() ==> is_plain_name(#[trigger] schema[i].name)
    &&& forall|i: int, j: int| 0 <= i < j < schema.len() ==> schema[i].name != schema[j].name
}

/// A row that can be stored: each of its values is storable.
pub open spec fn is_storable_row(row: Seq<SqlValueView>) -> bool {
    forall|i: int| 0 <= i < row.len() ==> is_storable(#[trigger] row[i])
}

/// The entries of a row under a schema: each value under the name of its
/// field.
pub open spec fn own_entries(row: Seq<SqlValueView>, schema: Seq<ColumnView>) -> Seq<
    (Seq<char>, SqlValueView),
> {
    Seq::new(row.len(), |i: int| (field_name(schema, i), row[i]))
}

/// The data of the record of a row are found, and read as the entries of
/// the row.
pub proof fn lemma_record_entries(timestamp: Seq<char>, row: Seq<SqlValueView>, schema: Seq<ColumnView>)
    requires
        !has_char(timestamp, '\n'),
        row.len() > 0,
        is_storable_row(row),
        forall|i: int| 0 <= i < row.len() ==> is_plain_name(#[trigger] field_name(schema, i)),
    ensures
        ({
            let record = record_text(timestamp, row, schema);
            let start = find(record, "DATA:\n"@);
            &&& 0 <= start
            &&& start + 6 <= record.len()
            &&& record_entries(lines(record.skip(start + 6))) == own_entries(row, schema)
        }),
{
    reveal_strlit("TIMESTAMP: ");
    reveal_strlit("\nDATA:");
    reveal_strlit("DATA:\n");
    reveal_strlit("  ");
    let n = row.len() as int;
    let ls = row_lines(row, schema, n);
    let es = own_entries(row, schema);
    assert forall|i: int| 0 <= i < n implies is_line(#[trigger] ls[i]) && parse_line(ls[i]) == Some(
        es[i],
    ) by {
        assert(is_plain_name(field_name(schema, i)));
        assert(is_storable(row[i]));
        lemma_line_roundtrip(field_name(schema, i), row[i]);
    }
    lemma_record_lines_text(row, schema, n, 0);
    let body = lines_text(ls, 0);
    assert(record_lines(row, schema, n) =~= seq!['\n'] + body);
    lemma_lines_of_text(ls, 0);
    assert(ls.skip(0) =~= ls);
    lemma_entries_of_lines(ls, es);

    let head = "TIMESTAMP: "@ + timestamp;
    let marker = "DATA:\n"@;
    let record = record_text(timestamp, row, schema);
    let p: int = head.len() as int + 1;
    assert(record =~= head + "\nDATA:"@ + seq!['\n'] + body);
    assert(record.len() == head.len() + 7 + body.len());
    assert forall|i: int| 0 <= i < head.len() + 7 implies #[trigger] record[i] == (if i < head.len() {
        head[i]
    } else {
        "\nDATA:\n"@[i - head.len()]
    }) by {
        reveal_strlit("\nDATA:\n");
    }
    reveal_strlit("\nDATA:\n");
    assert forall|i: int| 0 <= i < head.len() implies head[i] != '\n' by {
        if i >= 11 {
            assert(head[i] == timestamp[i - 11]);
        }
    }
    assert(record.subrange(p, p + 6) =~= marker);
    assert(matches_at(record, marker, p));
    lemma_find(record, marker);
    let f = find(record, marker);
    assert(0 <= f <= p);
    assert(matches_at(record, marker, f));
    assert(record.subrange(f, f + 6)[5] == '\n');
    assert(record[f + 5] == '\n');
    assert(f == p || f == p - 6);
    if f == p {
        assert(record.skip(f + 6) =~= body);
    } else {
        let word = record.subrange(p, p + 5);
        assert(record.skip(f + 6) =~= word + seq!['\n'] + body);
        assert(word =~= marker.take(5));
        assert(!has_char(word, '\n'));
        assert(word.last() == ':');
        lemma_lines_head(word, body);
        assert(parse_line(word) is None) by {
            assert(word[0] == 'D');
            if starts_with(word, "  "@) {
                assert(word.take(2)[0] == ' ');
            }
        }
        lemma_entries_skip_head(word, ls);
    }
}

/// Round trip: the record of a row reads back as the row.
///
/// This holds of every row that has one storable value for each column of
/// a storable schema, whatever the timestamp, as long as the timestamp is
/// on one line. A row that is valid against the schema has one value for
/// each column.
pub proof fn lemma_record_roundtrip(timestamp: Seq<char>, row: Seq<SqlValueView>, schema: Seq<ColumnView>)
    requires
        !has_char(timestamp, '\n'),
        is_storable_schema(schema),
        row.len() == schema.len(),
        is_storable_row(row),
    ensures
        decode_record(record_text(timestamp, row, schema), schema) == Some(row),
{
    let es = own_entries(row, schema);
    assert forall|i: int| 0 <= i < row.len() implies is_plain_name(#[trigger] field_name(schema, i)) by {
        assert(is_plain_name(schema[i].name));
    }
    lemma_record_entries(timestamp, row, schema);
    lemma_reorder_own(es, schema, row.len() as int);
    assert(Seq::new(row.len(), |i: int| es[i].1) =~= row);
}

/// Among entries with distinct names, every entry counts.
proof fn lemma_latest_all(es: Seq<(Seq<char>, SqlValueView)>, k: int)
    requires
        0 <= k <= es.len(),
        forall|i: int, j: int| 0 <= i < j < es.len() ==> es[i].0 != es[j].0,
    ensures
        latest_values(es, k) == Seq::new((es.len() - k) as nat, |i: int| es[k + i].1),
    decreases es.len() - k,
{
    let all = Seq::new((es.len() - k) as nat, |i: int| es[k + i].1);
    if k >= es.len() {
        assert(all =~= Seq::<SqlValueView>::empty());
    } else {
        lemma_latest_all(es, k + 1);
        assert(!named_from(es, es[k].0, k + 1)) by {
            if named_from(es, es[k].0, k + 1) {
                let j = choose|j: int| k + 1 <= j < es.len() && (#[trigger] es[j]).0 == es[k].0;
                assert(es[k].0 != es[j].0);
            }
        }
        assert(seq![es[k].1] + Seq::new((es.len() - k - 1) as nat, |i: int| es[k + 1 + i].1) =~= all);
    }
}

/// The names of the fields of a row without a schema are plain and
/// distinct.
proof fn lemma_numbered_names(i: int, j: int)
    requires
        0 <= i,
        0 <= j,
    ensures
        is_plain_name(field_name(Seq::<ColumnView>::empty(), i)),
        i != j ==> field_name(Seq::<ColumnView>::empty(), i) != field_name(
            Seq::<ColumnView>::empty(),
            j,
        ),
{
    reveal_strlit("column_");
    let none = Seq::<ColumnView>::empty();
    let a = decimal((i + 1) as nat);
    let b = decimal((j + 1) as nat);
    lemma_decimal((i + 1) as nat);
    lemma_decimal((j + 1) as nat);
    let name = field_name(none, i);
    assert forall|k: int| 0 <= k < name.len() implies !is_whitespace(#[trigger] name[k]) by {
        if k >= 7 {
            assert(name[k] == a[k - 7]);
            assert(is_digit(a[k - 7]));
        }
    }
    if i != j && field_name(none, i) == field_name(none, j) {
        assert(("column_"@ + a).skip(7) =~= a);
        assert(("column_"@ + b).skip(7) =~= b);
        assert(a == b);
    }
}

/// Round trip without a schema: the record of a row that is not empty
/// reads back as the row.
pub proof fn lemma_record_roundtrip_schemaless(timestamp: Seq<char>, row: Seq<SqlValueView>)
    requires
        !has_char(timestamp, '\n'),
        row.len() > 0,
        is_storable_row(row),
    ensures
        decode_record(record_text(timestamp, row, Seq::empty()), Seq::empty()) == Some(row),
{
    let none = Seq::<ColumnView>::empty();
    let es = own_entries(row, none);
    assert forall|i: int| 0 <= i < row.len() implies is_plain_name(#[trigger] field_name(none, i)) by {
        lemma_numbered_names(i, i);
    }
    lemma_record_entries(timestamp, row, none);
    assert forall|i: int, j: int| 0 <= i < j < es.len() implies es[i].0 != es[j].0 by {
        lemma_numbered_names(i, j);
    }
    lemma_latest_all(es, 0);
    assert(Seq::new(es.len(), |i: int| es[0 + i].1) =~= row);
}

/// A row and a schema of which the record reads back: the values are
/// storable, and either the schema is storable and has one column for each
/// value, or there is no schema and the row is not empty.
pub open spec fn reads_back(row: Seq<SqlValueView>, schema: Seq<ColumnView>) -> bool {
    &&& is_storable_row(row)
    &&& (is_storable_schema(schema) && row.len() == schema.len()) || (schema.len() == 0 && row.len()
        > 0)
}

/// Round trip, with or without a schema.
pub proof fn lemma_reads_back(timestamp: Seq<char>, row: Seq<SqlValueView>, schema: Seq<ColumnView>)
    requires
        !has_char(timestamp, '\n'),
        reads_back(row, schema),
    ensures
        decode_record(record_text(timestamp, row, schema), schema) == Some(row),
{
    if schema.len() == 0 {
        assert(schema =~= Seq::<ColumnView>::empty());
        lemma_record_roundtrip_schemaless(timestamp, row);
    } else {
        lemma_record_roundtrip(timestamp, row, schema);
    }
}

} // verus!
