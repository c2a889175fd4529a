//! Laws of the literal parser: one value for each field, in order.

use vstd::prelude::*;
use crate::text::{has_char, index_of, lemma_index_of, lemma_index_of_at};
use crate::values::{
    bare_field, field_stop, lemma_field_stop, lemma_field_stop_at, lemma_scan_string,
    parse_values_text, prepend_values, scan_string, scan_values, LiteralErrorView, SqlValueView,
};

verus! {

/// The value of a field that is one literal.
///
/// A field without a quote is a bare literal: it has no comma, and its
/// trimmed text is `NULL`, a boolean, an integer or a floating-point
/// number. A field with a quote is a string: no comma stands before its
/// first quote, the string is closed, and no comma follows the closing
/// quote. Any other text is no such field.
pub open spec fn field_value(f: Seq<char>) -> Option<SqlValueView> {
    let stop = field_stop(f);
    if stop < 0 || stop >= f.len() {
        match bare_field(f) {
            Ok(values) => if values.len() == 1 {
                Some(values[0])
            } else {
                None
            },
            Err(_) => None,
        }
    } else if f[stop] == '\'' {
        match scan_string(f.skip(stop + 1)) {
            Some((content, end)) => if !has_char(f.skip(stop + 1).skip(end + 1), ',') {
                Some(SqlValueView::String(content))
            } else {
                None
            },
            None => None,
        }
    } else {
        None
    }
}

/// The fields from `k` on, with a comma between each two.
pub open spec fn list_text(fields: Seq<Seq<char>>, k: int) -> Seq<char>
    decreases fields.len() - k,
{
    if k < 0 || k >= fields.len() {
        Seq::empty()
    } else if k == fields.len() - 1 {
        fields[k]
    } else {
        fields[k] + seq![','] + list_text(fields, k + 1)
    }
}

/// The values of the fields from `k` on.
pub open spec fn field_values(fields: Seq<Seq<char>>, k: int) -> Seq<SqlValueView> {
    Seq::new((fields.len() - k) as nat, |i: int| field_value(fields[k + i])->0)
}

/// A string that is closed within a text is read alike when more text
/// follows that does not start with a quote.
pub proof fn lemma_scan_string_prefix(x: Seq<char>, y: Seq<char>)
    requires
        scan_string(x) is Some,
        y.len() == 0 || y[0] != '\'',
    ensures
        scan_string(x + y) == scan_string(x),
    decreases x.len(),
{
    let s = x + y;
    if x.len() != 0 {
        assert(s[0] == x[0]);
        if x[0] == '\'' {
            if x.len() >= 2 && x[1] == '\'' {
                assert(s[1] == x[1]);
                assert(s.skip(2) =~= x.skip(2) + y);
                lemma_scan_string_prefix(x.skip(2), y);
            } else {
                if x.len() >= 2 {
                    assert(s[1] == x[1]);
                } else if y.len() > 0 {
                    assert(s[1] == y[0]);
                }
            }
        } else {
            assert(s.drop_first() =~= x.drop_first() + y);
            lemma_scan_string_prefix(x.drop_first(), y);
        }
    }
}

/// The scan of a field that is one literal, alone or before a comma and
/// more text.
proof fn lemma_scan_field(f: Seq<char>, rest: Seq<char>, last: bool)
    requires
        field_value(f) is Some,
    ensures
        last ==> scan_values(f) == Ok::<Seq<SqlValueView>, LiteralErrorView>(
            seq![field_value(f)->0],
        ),
        !last ==> scan_values(f + seq![','] + rest) == prepend_values(
            seq![field_value(f)->0],
            scan_values(rest),
        ),
{
    lemma_field_stop(f);
    let stop = field_stop(f);
    let s = f + seq![','] + rest;
    if stop >= f.len() {
        if !last {
            assert forall|i: int| 0 <= i < f.len() implies s[i] != ',' && s[i] != '\'' by {
                assert(s[i] == f[i]);
            }
            assert(s[f.len() as int] == ',');
            lemma_field_stop_at(s, f.len() as int);
            assert(s.take(f.len() as int) =~= f);
            assert(s.skip(f.len() as int + 1) =~= rest);
        }
    } else {
        let body = f.skip(stop + 1);
        let (content, end) = scan_string(body)->0;
        lemma_scan_string(body);
        let after = body.skip(end + 1);
        lemma_index_of(after, ',');
        assert(index_of(after, ',') == -1) by {
            if index_of(after, ',') >= 0 {
                assert(after[index_of(after, ',')] == ',');
            }
        }
        if !last {
            assert forall|i: int| 0 <= i < stop implies s[i] != ',' && s[i] != '\'' by {
                assert(s[i] == f[i]);
            }
            assert(s[stop] == f[stop]);
            lemma_field_stop_at(s, stop);
            let tail = seq![','] + rest;
            assert(s.skip(stop + 1) =~= body + tail);
            lemma_scan_string_prefix(body, tail);
            let after_s = s.skip(stop + 1).skip(end + 1);
            assert(after_s =~= after + tail);
            assert forall|i: int| 0 <= i < after.len() implies after_s[i] != ',' by {
                assert(after_s[i] == after[i]);
                if after[i] == ',' {
                    assert(has_char(after, ','));
                }
            }
            assert(after_s[after.len() as int] == ',');
            lemma_index_of_at(after_s, ',', after.len() as int);
            assert(after_s.skip(after.len() as int + 1) =~= rest);
        }
    }
}

/// The scan of a list of fields gives the values of the fields.
pub proof fn lemma_scan_fields(fields: Seq<Seq<char>>, k: int)
    requires
        0 <= k < fields.len(),
        forall|i: int| 0 <= i < fields.len() ==> field_value(#[trigger] fields[i]) is Some,
    ensures
        scan_values(list_text(fields, k)) == Ok::<Seq<SqlValueView>, LiteralErrorView>(
            field_values(fields, k),
        ),
    decreases fields.len() - k,
{
    let f = fields[k];
    assert(field_value(f) is Some);
    if k == fields.len() - 1 {
        lemma_scan_field(f, Seq::empty(), true);
        assert(field_values(fields, k) =~= seq![field_value(f)->0]);
    } else {
        let rest = list_text(fields, k + 1);
        lemma_scan_fields(fields, k + 1);
        lemma_scan_field(f, rest, false);
        assert(seq![field_value(f)->0] + field_values(fields, k + 1) =~= field_values(fields, k));
    }
}

/// One value for each field, in order: a list of fields that are each one
/// literal, with a comma between each two, parses into the values of the
/// fields.
pub proof fn lemma_parse_values_fields(fields: Seq<Seq<char>>)
    requires
        fields.len() >= 1,
        forall|i: int| 0 <= i < fields.len() ==> field_value(#[trigger] fields[i]) is Some,
    ensures
        parse_values_text(list_text(fields, 0)) == Ok::<Seq<SqlValueView>, LiteralErrorView>(
            field_values(fields, 0),
        ),
        field_values(fields, 0).len() == fields.len(),
{
    lemma_scan_fields(fields, 0);
}

} // verus!
