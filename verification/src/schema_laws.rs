//! Laws of the schema parser: the canonical declaration of a parsed schema
//! parses back to the same columns.

use vstd::prelude::*;
use crate::record_laws::{is_plain_name};
use crate::schema::{
    data_type_named, has_pair, parse_column, parse_columns, parse_schema_text, render_column,
    render_columns, size_problem, split_size, ColumnView, DataType, SchemaErrorView,
};
use crate::text::{
    decimal, eq_ignore_case, has_char, index_of, is_whitespace, lemma_decimal, lemma_index_of,
    lemma_index_of_at, lemma_trim_start, lemma_word_len, lemma_word_len_at, lower, split_on, trim,
    trim_start, word_len, words,
};

verus! {

// ---------------------------------------------------------------------------
// Words
// ---------------------------------------------------------------------------

/// A word: not empty and without whitespace.
pub open spec fn is_word(w: Seq<char>) -> bool {
    w.len() > 0 && is_plain_name(w)
}

/// A single word is its own only word.
pub proof fn lemma_words_single(w: Seq<char>)
    requires
        is_word(w),
    ensures
        words(w) == seq![w],
{
    lemma_word_len_at(w, w.len() as int);
    assert(w.take(w.len() as int) =~= w);
    let rest = w.skip(w.len() as int);
    assert(words(rest) == Seq::<Seq<char>>::empty());
}

/// The words of a word, a space and a rest are the word and the words of
/// the rest.
pub proof fn lemma_words_head(w: Seq<char>, rest: Seq<char>)
    requires
        is_word(w),
    ensures
        words(w + seq![' '] + rest) == seq![w] + words(rest),
{
    let s = w + seq![' '] + rest;
    assert forall|i: int| 0 <= i < w.len() implies !is_whitespace(#[trigger] s[i]) by {}
    lemma_word_len_at(s, w.len() as int);
    assert(s.take(w.len() as int) =~= w);
    let tail = s.skip(w.len() as int);
    // one more space in front changes no word
    assert(tail.drop_first() =~= rest);
    lemma_trim_start(rest);
    assert(words(tail) == words(rest)) by {
        lemma_words_of_trimmed(tail);
        lemma_words_of_trimmed(rest);
    }
}

/// The words of a text are those of the text without its leading
/// whitespace.
pub proof fn lemma_words_of_trimmed(s: Seq<char>)
    ensures
        words(s) == words(trim_start(s)),
{
    let t = trim_start(s);
    lemma_trim_start(s);
    assert(trim_start(t) == t);
    lemma_word_len(t);
}

/// Each word of a text is a word, and holds no character that the text has
/// not.
pub proof fn lemma_words_are_words(s: Seq<char>, c: char)
    requires
        !has_char(s, c),
    ensures
        forall|k: int| 0 <= k < words(s).len() ==> is_word(#[trigger] words(s)[k]) && !has_char(
            words(s)[k],
            c,
        ),
    decreases s.len(),
{
    let t = trim_start(s);
    lemma_trim_start(s);
    if t.len() > 0 {
        lemma_word_len(t);
        let n = word_len(t);
        let first = t.take(n);
        let rest = t.skip(n);
        assert(is_word(first)) by {
            assert forall|i: int| 0 <= i < first.len() implies !is_whitespace(#[trigger] first[i]) by {}
        }
        let off = s.len() - t.len();
        assert(!has_char(first, c)) by {
            if has_char(first, c) {
                let i = choose|i: int| 0 <= i < first.len() && first[i] == c;
            }
        }
        assert(!has_char(rest, c)) by {
            if has_char(rest, c) {
                let i = choose|i: int| 0 <= i < rest.len() && rest[i] == c;
            }
        }
        lemma_words_are_words(rest, c);
        assert forall|k: int| 0 <= k < words(s).len() implies is_word(#[trigger] words(s)[k])
            && !has_char(words(s)[k], c) by {
            if k > 0 {
                assert(words(s)[k] == words(rest)[k - 1]);
            }
        }
    }
}

// ---------------------------------------------------------------------------
// Pieces
// ---------------------------------------------------------------------------

/// Splitting a text, the separator and a piece without separator gives the
/// pieces of the text and the piece.
pub proof fn lemma_split_on_append(x: Seq<char>, y: Seq<char>, c: char)
    requires
        !has_char(y, c),
    ensures
        split_on(x + seq![c] + y, c) == split_on(x, c).push(y),
    decreases x.len(),
{
    let s = x + seq![c] + y;
    lemma_index_of(x, c);
    lemma_index_of(y, c);
    let i = index_of(x, c);
    if 0 <= i < x.len() {
        assert forall|j: int| 0 <= j < i implies s[j] != c by {}
        lemma_index_of_at(s, c, i);
        assert(s.take(i) =~= x.take(i));
        assert(s.skip(i + 1) =~= x.skip(i + 1) + seq![c] + y);
        lemma_split_on_append(x.skip(i + 1), y, c);
    } else {
        assert forall|j: int| 0 <= j < x.len() implies s[j] != c by {}
        lemma_index_of_at(s, c, x.len() as int);
        assert(s.take(x.len() as int) =~= x);
        assert(s.skip(x.len() as int + 1) =~= y);
        assert(index_of(y, c) == -1);
        assert(split_on(y, c) == seq![y]);
    }
}

/// No piece of a split holds the separator.
pub proof fn lemma_split_on_pieces(s: Seq<char>, c: char)
    ensures
        forall|k: int| 0 <= k < split_on(s, c).len() ==> !has_char(#[trigger] split_on(s, c)[k], c),
    decreases s.len(),
{
    lemma_index_of(s, c);
    let i = index_of(s, c);
    if 0 <= i < s.len() {
        lemma_split_on_pieces(s.skip(i + 1), c);
        let head = s.take(i);
        assert(!has_char(head, c)) by {
            if has_char(head, c) {
                let j = choose|j: int| 0 <= j < head.len() && head[j] == c;
            }
        }
        assert forall|k: int| 0 <= k < split_on(s, c).len() implies !has_char(
            #[trigger] split_on(s, c)[k],
            c,
        ) by {
            if k > 0 {
                assert(split_on(s, c)[k] == split_on(s.skip(i + 1), c)[k - 1]);
            }
        }
    } else {
        assert(!has_char(s, c)) by {
            if has_char(s, c) {
                let j = choose|j: int| 0 <= j < s.len() && s[j] == c;
            }
        }
    }
}

/// One more piece that declares a column adds the column to those of the
/// pieces before it.
pub proof fn lemma_parse_columns_push(segments: Seq<Seq<char>>, cols: Seq<ColumnView>, piece: Seq<char>, c: ColumnView)
    requires
        parse_columns(segments) == Ok::<Seq<ColumnView>, SchemaErrorView>(cols),
        trim(piece).len() > 0,
        parse_column(trim(piece)) == Ok::<ColumnView, SchemaErrorView>(c),
    ensures
        parse_columns(segments.push(piece)) == Ok::<Seq<ColumnView>, SchemaErrorView>(cols.push(c)),
    decreases segments.len(),
{
    let all = segments.push(piece);
    if segments.len() == 0 {
        assert(parse_columns(all.drop_first()) == Ok::<Seq<ColumnView>, SchemaErrorView>(Seq::empty()));
    } else {
        assert(all.drop_first() =~= segments.drop_first().push(piece));
        let segment = trim(segments[0]);
        if segment.len() == 0 {
            lemma_parse_columns_push(segments.drop_first(), cols, piece, c);
        } else {
            match parse_column(segment) {
                Err(e) => {},
                Ok(first) => {
                    match parse_columns(segments.drop_first()) {
                        Err(e) => {},
                        Ok(more) => {
                            lemma_parse_columns_push(segments.drop_first(), more, piece, c);
                        },
                    }
                },
            }
        }
    }
}

// ---------------------------------------------------------------------------
// One column
// ---------------------------------------------------------------------------

/// A column as the parser gives it: its name is a word without a comma,
/// and its size obeys the rule of its type.
pub open spec fn is_declared_column(c: ColumnView) -> bool {
    is_word(c.name) && !has_char(c.name, ',') && size_problem(c.data_type, c.size) is None
}

/// The type word of a column's canonical declaration.
pub open spec fn type_word(c: ColumnView) -> Seq<char> {
    match c.size {
        Some(n) => c.data_type.name() + seq!['('] + decimal(n as nat) + seq![')'],
        None => c.data_type.name(),
    }
}

/// The constraint words of a column's canonical declaration.
pub open spec fn constraint_words(c: ColumnView) -> Seq<Seq<char>> {
    let nulled = if c.nullable {
        Seq::<Seq<char>>::empty()
    } else {
        seq!["NOT"@, "NULL"@]
    };
    if c.primary_key {
        nulled + seq!["PRIMARY"@, "KEY"@]
    } else {
        nulled
    }
}

/// The constraints of a column's canonical declaration, each word after a
/// space.
pub open spec fn constraint_text(c: ColumnView) -> Seq<char> {
    let nulled = if c.nullable {
        Seq::<char>::empty()
    } else {
        " NOT NULL"@
    };
    if c.primary_key {
        nulled + " PRIMARY KEY"@
    } else {
        nulled
    }
}

/// A text without whitespace, comma and parentheses.
pub open spec fn is_bare(s: Seq<char>) -> bool {
    forall|i: int|
        0 <= i < s.len() ==> !is_whitespace(#[trigger] s[i]) && s[i] != ',' && s[i] != '(' && s[i]
            != ')'
}

/// The name of each type is bare, not empty, and names the type.
pub proof fn lemma_type_name(t: DataType)
    ensures
        t.name().len() > 0,
        is_bare(t.name()),
        data_type_named(t.name()) == Some(t),
{
    reveal_strlit("INT");
    reveal_strlit("VARCHAR");
    reveal_strlit("CHAR");
    reveal_strlit("BOOLEAN");
    reveal_strlit("FLOAT");
    reveal_strlit("DOUBLE");
    reveal_strlit("DECIMAL");
    reveal_strlit("DATE");
    reveal_strlit("TIME");
    reveal_strlit("DATETIME");
    reveal_strlit("int");
    reveal_strlit("integer");
    reveal_strlit("varchar");
    reveal_strlit("string");
    reveal_strlit("text");
    reveal_strlit("char");
    reveal_strlit("character");
    reveal_strlit("bool");
    reveal_strlit("boolean");
    reveal_strlit("float");
    reveal_strlit("real");
    reveal_strlit("double");
    reveal_strlit("decimal");
    reveal_strlit("numeric");
    reveal_strlit("date");
    reveal_strlit("time");
    reveal_strlit("datetime");
    reveal_strlit("timestamp");
    let l = lower(t.name());
    match t {
        DataType::Int => {
            assert(l =~= "int"@);
        },
        DataType::Varchar => {
            assert(l =~= "varchar"@);
            assert(l[0] == 'v');
        },
        DataType::Char => {
            assert(l =~= "char"@);
            assert(l[0] == 'c');
        },
        DataType::Boolean => {
            assert(l =~= "boolean"@);
            assert(l[0] == 'b');
        },
        DataType::Float => {
            assert(l =~= "float"@);
        },
        DataType::Double => {
            assert(l =~= "double"@);
            assert(l[0] == 'd');
        },
        DataType::Decimal => {
            assert(l =~= "decimal"@);
            assert(l[0] == 'd');
        },
        DataType::Date => {
            assert(l =~= "date"@);
            assert(l[0] == 'd');
        },
        DataType::Time => {
            assert(l =~= "time"@);
            assert(l[1] == 'i');
        },
        DataType::DateTime => {
            assert(l =~= "datetime"@);
        },
    }
}

/// The type word of a declared column is a word without a comma, and
/// splits into the name of the type and the size.
pub proof fn lemma_type_word(c: ColumnView)
    ensures
        is_word(type_word(c)),
        !has_char(type_word(c), ','),
        split_size(type_word(c)) == (c.data_type.name(), c.size),
{
    let name = c.data_type.name();
    let w = type_word(c);
    lemma_type_name(c.data_type);
    match c.size {
        None => {
            lemma_index_of(w, '(');
            lemma_index_of(w, ')');
            assert(index_of(w, '(') == -1);
            if has_char(w, ',') {
                let i = choose|i: int| 0 <= i < w.len() && w[i] == ',';
            }
        },
        Some(n) => {
            let d = decimal(n as nat);
            lemma_decimal(n as nat);
            let a = name.len() as int;
            let b = a + 1 + d.len();
            assert forall|i: int| 0 <= i < w.len() implies #[trigger] w[i] == (if i < a {
                name[i]
            } else if i == a {
                '('
            } else if i < b {
                d[i - a - 1]
            } else {
                ')'
            }) by {}
            assert forall|i: int| 0 <= i < a implies w[i] != '(' && w[i] != ')' by {}
            lemma_index_of_at(w, '(', a);
            assert forall|i: int| 0 <= i < b implies w[i] != ')' by {}
            lemma_index_of_at(w, ')', b);
            assert(w.subrange(a + 1, b) =~= d);
            assert forall|i: int| 0 <= i < w.len() implies !is_whitespace(#[trigger] w[i]) by {}
            if has_char(w, ',') {
                let i = choose|i: int| 0 <= i < w.len() && w[i] == ',';
            }
        },
    }
}

/// The words of a word and the constraints of a column are the word and
/// the constraint words; the text starts with the word, ends without
/// whitespace and has no comma unless the word has one.
pub proof fn lemma_constraint_words(w: Seq<char>, c: ColumnView)
    requires
        is_word(w),
    ensures
        words(w + constraint_text(c)) == seq![w] + constraint_words(c),
        !is_whitespace((w + constraint_text(c)).last()),
        !has_char(w, ',') ==> !has_char(w + constraint_text(c), ','),
{
    reveal_strlit(" NOT NULL");
    reveal_strlit(" PRIMARY KEY");
    reveal_strlit("NOT");
    reveal_strlit("NULL");
    reveal_strlit("PRIMARY");
    reveal_strlit("KEY");
    let text = w + constraint_text(c);
    let sp = seq![' '];
    if c.nullable {
        if c.primary_key {
            assert(text =~= w + sp + ("PRIMARY"@ + sp + "KEY"@));
            lemma_words_head(w, "PRIMARY"@ + sp + "KEY"@);
            lemma_words_head("PRIMARY"@, "KEY"@);
            lemma_words_single("KEY"@);
        } else {
            lemma_words_single(w);
        }
    } else {
        if c.primary_key {
            let r3 = "PRIMARY"@ + sp + "KEY"@;
            let r2 = "NULL"@ + sp + r3;
            let r1 = "NOT"@ + sp + r2;
            assert(text =~= w + sp + r1);
            lemma_words_head(w, r1);
            lemma_words_head("NOT"@, r2);
            lemma_words_head("NULL"@, r3);
            lemma_words_head("PRIMARY"@, "KEY"@);
            lemma_words_single("KEY"@);
        } else {
            let r1 = "NOT"@ + sp + "NULL"@;
            assert(text =~= w + sp + r1);
            lemma_words_head(w, r1);
            lemma_words_head("NOT"@, "NULL"@);
            lemma_words_single("NULL"@);
        }
    }
    if !has_char(w, ',') && has_char(text, ',') {
        let i = choose|i: int| 0 <= i < text.len() && text[i] == ',';
        if i >= w.len() {
            let t = constraint_text(c);
        }
    }
}

/// `NOT NULL` stands among the words of a column's declaration exactly
/// where the column is not nullable, and `PRIMARY KEY` exactly where it is
/// a primary key.
pub proof fn lemma_constraint_pairs(name: Seq<char>, word: Seq<char>, c: ColumnView)
    ensures
        has_pair(seq![name, word] + constraint_words(c), "NOT"@, "NULL"@) == !c.nullable,
        has_pair(seq![name, word] + constraint_words(c), "PRIMARY"@, "KEY"@) == c.primary_key,
{
    reveal_strlit("NOT");
    reveal_strlit("NULL");
    reveal_strlit("PRIMARY");
    reveal_strlit("KEY");
    let parts = seq![name, word] + constraint_words(c);
    assert(lower("KEY"@)[0] != lower("NOT"@)[0]);
    if !c.nullable {
        assert(parts[2] == "NOT"@);
    } else {
        if has_pair(parts, "NOT"@, "NULL"@) {
            let i = choose|i: int|
                2 <= i && i + 1 < parts.len() && eq_ignore_case(#[trigger] parts[i], "NOT"@)
                    && eq_ignore_case(parts[i + 1], "NULL"@);
        }
    }
    if c.primary_key {
        let k = parts.len() - 2;
        assert(parts[k] == "PRIMARY"@);
    } else {
        if has_pair(parts, "PRIMARY"@, "KEY"@) {
            let i = choose|i: int|
                2 <= i && i + 1 < parts.len() && eq_ignore_case(#[trigger] parts[i], "PRIMARY"@)
                    && eq_ignore_case(parts[i + 1], "KEY"@);
        }
    }
}

/// The canonical declaration of a column is its name, a space, its type
/// word and its constraints.
pub proof fn lemma_render_shape(c: ColumnView)
    ensures
        render_column(c) == c.name + seq![' '] + (type_word(c) + constraint_text(c)),
{
    reveal_strlit(" ");
    reveal_strlit("(");
    reveal_strlit(")");
    let w = type_word(c);
    let head = c.name + " "@ + c.data_type.name();
    let sized = match c.size {
        Some(n) => head + "("@ + decimal(n as nat) + ")"@,
        None => head,
    };
}

/// The words of the canonical declaration of a declared column, and how
/// the declaration starts and ends.
pub proof fn lemma_render_words(c: ColumnView)
    requires
        is_declared_column(c),
    ensures
        words(render_column(c)) == seq![c.name, type_word(c)] + constraint_words(c),
        render_column(c).len() > 0,
        !is_whitespace(render_column(c)[0]),
        !is_whitespace(render_column(c).last()),
        !has_char(render_column(c), ','),
{
    let r = render_column(c);
    let w = type_word(c);
    let tail = w + constraint_text(c);
    lemma_render_shape(c);
    lemma_type_word(c);
    lemma_constraint_words(w, c);
    lemma_words_head(c.name, tail);
    if has_char(r, ',') {
        let i = choose|i: int| 0 <= i < r.len() && r[i] == ',';
    }
}

/// The canonical declaration of a declared column declares the column.
pub proof fn lemma_render_parse_column(c: ColumnView)
    requires
        is_declared_column(c),
    ensures
        parse_column(render_column(c)) == Ok::<ColumnView, SchemaErrorView>(c),
{
    let r = render_column(c);
    let w = type_word(c);
    lemma_render_words(c);
    let parts = words(r);
    lemma_type_word(c);
    lemma_type_name(c.data_type);
    lemma_constraint_pairs(c.name, w, c);
}

// ---------------------------------------------------------------------------
// Schemas
// ---------------------------------------------------------------------------

/// Every column is a declared column.
pub open spec fn is_declared_schema(cols: Seq<ColumnView>) -> bool {
    forall|i: int| 0 <= i < cols.len() ==> is_declared_column(#[trigger] cols[i])
}

/// A trimmed text holds no character that the text has not.
pub proof fn lemma_trim_chars(s: Seq<char>, c: char)
    requires
        !has_char(s, c),
    ensures
        !has_char(trim(s), c),
{
    let a = trim_start(s);
    lemma_trim_start(s);
    crate::text::lemma_trim_end(a);
    let t = trim(s);
    if has_char(t, c) {
        let i = choose|i: int| 0 <= i < t.len() && t[i] == c;
    }
}

/// The columns that comma-free pieces declare are declared columns.
pub proof fn lemma_parse_columns_declared(segments: Seq<Seq<char>>)
    requires
        forall|k: int| 0 <= k < segments.len() ==> !has_char(#[trigger] segments[k], ','),
        parse_columns(segments) is Ok,
    ensures
        is_declared_schema(parse_columns(segments)->Ok_0),
    decreases segments.len(),
{
    if segments.len() > 0 {
        let rest = segments.drop_first();
        assert forall|k: int| 0 <= k < rest.len() implies !has_char(#[trigger] rest[k], ',') by {}
        let segment = trim(segments[0]);
        if segment.len() == 0 {
            lemma_parse_columns_declared(rest);
        } else {
            let c = parse_column(segment)->Ok_0;
            lemma_parse_columns_declared(rest);
            let more = parse_columns(rest)->Ok_0;
            lemma_trim_chars(segments[0], ',');
            lemma_words_are_words(segment, ',');
            let cols = parse_columns(segments)->Ok_0;
            assert forall|i: int| 0 <= i < cols.len() implies is_declared_column(#[trigger] cols[i]) by {}
        }
    }
}

/// The columns of a parsed schema are declared columns: each name is a
/// word without a comma, each size obeys the rule of its type.
pub proof fn lemma_parsed_schema_declared(text: Seq<char>)
    requires
        parse_schema_text(text) is Ok,
    ensures
        is_declared_schema(parse_schema_text(text)->Ok_0),
{
    lemma_split_on_pieces(text, ',');
    lemma_parse_columns_declared(split_on(text, ','));
}

/// The canonical declaration of declared columns declares the columns.
pub proof fn lemma_render_parse_columns(cols: Seq<ColumnView>)
    requires
        is_declared_schema(cols),
    ensures
        parse_schema_text(render_columns(cols)) == Ok::<Seq<ColumnView>, SchemaErrorView>(cols),
    decreases cols.len(),
{
    reveal_strlit(", ");
    let text = render_columns(cols);
    if cols.len() == 0 {
        let empty = Seq::<char>::empty();
        let segments = seq![empty];
        assert(parse_columns(segments.drop_first()) == Ok::<Seq<ColumnView>, SchemaErrorView>(
            Seq::empty(),
        ));
        assert(cols =~= Seq::<ColumnView>::empty());
    } else if cols.len() == 1 {
        let c = cols[0];
        lemma_render_words(c);
        lemma_render_parse_column(c);
        let r = render_column(c);
        lemma_index_of(r, ',');
        assert(index_of(r, ',') == -1);
        let segments = seq![r];
        assert(parse_columns(segments.drop_first()) == Ok::<Seq<ColumnView>, SchemaErrorView>(
            Seq::empty(),
        ));
        assert(seq![c] + Seq::<ColumnView>::empty() =~= cols);
    } else {
        let before = cols.drop_last();
        let c = cols.last();
        assert forall|i: int| 0 <= i < before.len() implies is_declared_column(
            #[trigger] before[i],
        ) by {}
        lemma_render_parse_columns(before);
        lemma_render_words(c);
        lemma_render_parse_column(c);
        let r = render_column(c);
        let x = render_columns(before);
        let y = seq![' '] + r;
        assert(text =~= x + seq![','] + y);
        assert(!has_char(y, ',')) by {
            if has_char(y, ',') {
                let i = choose|i: int| 0 <= i < y.len() && y[i] == ',';
            }
        }
        lemma_split_on_append(x, y, ',');
        assert(trim(y) == r) by {
            assert(y.drop_first() =~= r);
        }
        lemma_parse_columns_push(split_on(x, ','), before, y, c);
        assert(before.push(c) =~= cols);
    }
}

/// Rendering then parsing changes nothing: the canonical declaration of
/// the columns that a declaration declares declares the same columns.
pub proof fn lemma_schema_render_parse(text: Seq<char>)
    requires
        parse_schema_text(text) is Ok,
    ensures
        parse_schema_text(render_columns(parse_schema_text(text)->Ok_0)) == parse_schema_text(text),
{
    lemma_parsed_schema_declared(text);
    lemma_render_parse_columns(parse_schema_text(text)->Ok_0);
}

} // verus!
