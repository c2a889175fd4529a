//! Typed literal values and the parser of comma-separated literal lists.

use vstd::prelude::*;
use crate::text::{
    all_digits, append_chars, char_is_digit, chars_of, eq_ignore_case, equals_str,
    equals_str_ignore_case, find_char, i64_literal, index_of, int_chars, int_text, is_digit, lower,
    parse_i64, string_of, subvec, to_lower_vec, trim, trim_vec,
};

verus! {

/// A typed literal. A floating-point literal is held as the text that was
/// written, so that no value is rounded.
#[derive(Debug, Clone, PartialEq)]
pub enum SqlValue {
    Integer(i64),
    Float(String),
    String(String),
    Boolean(bool),
    Null,
}

/// The mathematical value of a [`SqlValue`].
pub enum SqlValueView {
    Integer(i64),
    Float(Seq<char>),
    String(Seq<char>),
    Boolean(bool),
    Null,
}

impl View for SqlValue {
    type V = SqlValueView;

    open spec fn view(&self) -> SqlValueView {
        match self {
            SqlValue::Integer(v) => SqlValueView::Integer(*v),
            SqlValue::Float(t) => SqlValueView::Float(t@),
            SqlValue::String(s) => SqlValueView::String(s@),
            SqlValue::Boolean(b) => SqlValueView::Boolean(*b),
            SqlValue::Null => SqlValueView::Null,
        }
    }
}

/// A value as the literal parser gives it: the text of a floating-point
/// value is a floating-point literal and no integer literal.
pub open spec fn is_parsed_value(v: SqlValueView) -> bool {
    match v {
        SqlValueView::Float(t) => is_float_text(t) && i64_literal(t) is None,
        _ => true,
    }
}

/// Every value of the row is a parsed value.
pub open spec fn is_parsed_row(row: Seq<SqlValueView>) -> bool {
    forall|i: int| 0 <= i < row.len() ==> is_parsed_value(#[trigger] row[i])
}

/// The views of the values of a row, in order.
pub open spec fn row_view(row: Seq<SqlValue>) -> Seq<SqlValueView> {
    Seq::new(row.len(), |i: int| row[i]@)
}

/// The view of a row with one more value.
pub proof fn lemma_row_view_push(row: Seq<SqlValue>, v: SqlValue)
    ensures
        row_view(row.push(v)) == row_view(row).push(v@),
{
}

impl SqlValue {
    /// A copy with the same view.
    pub fn duplicate(&self) -> (r: SqlValue)
        ensures
            r@ == self@,
    {
        match self {
            SqlValue::Integer(v) => SqlValue::Integer(*v),
            SqlValue::Float(t) => SqlValue::Float(t.clone()),
            SqlValue::String(s) => SqlValue::String(s.clone()),
            SqlValue::Boolean(b) => SqlValue::Boolean(*b),
            SqlValue::Null => SqlValue::Null,
        }
    }
}

/// A copy of a row with the same view.
pub fn duplicate_row(row: &Vec<SqlValue>) -> (r: Vec<SqlValue>)
    ensures
        row_view(r@) == row_view(row@),
{
    let mut r: Vec<SqlValue> = Vec::new();
    let mut i: usize = 0;
    while i < row.len()
        invariant
            i <= row.len(),
            r.len() == i,
            forall|j: int| 0 <= j < i ==> r@[j]@ == row@[j]@,
        decreases row.len() - i,
    {
        r.push(row[i].duplicate());
        i += 1;
    }
    r
}

/// Why a literal list was refused.
#[derive(Debug, Clone)]
pub enum LiteralError {
    /// A quoted string has no closing quote.
    UnterminatedString,
    /// A field is no recognised literal.
    InvalidLiteral { text: String },
    /// The list holds no value.
    NoValuesProvided,
    /// A single value was asked for and the text is blank.
    EmptyValue,
}

/// The mathematical value of a [`LiteralError`].
pub enum LiteralErrorView {
    UnterminatedString,
    InvalidLiteral { text: Seq<char> },
    NoValuesProvided,
    EmptyValue,
}

impl View for LiteralError {
    type V = LiteralErrorView;

    open spec fn view(&self) -> LiteralErrorView {
        match self {
            LiteralError::UnterminatedString => LiteralErrorView::UnterminatedString,
            LiteralError::InvalidLiteral { text } => LiteralErrorView::InvalidLiteral { text: text@ },
            LiteralError::NoValuesProvided => LiteralErrorView::NoValuesProvided,
            LiteralError::EmptyValue => LiteralErrorView::EmptyValue,
        }
    }
}

// ---------------------------------------------------------------------------
// Floating-point literals
// ---------------------------------------------------------------------------

/// `s` without a leading `+` or `-`.
pub open spec fn unsigned_part(s: Seq<char>) -> Seq<char> {
    if s.len() > 0 && (s[0] == '+' || s[0] == '-') {
        s.drop_first()
    } else {
        s
    }
}

/// Digits with at most one `.` among them, and one digit at least.
pub open spec fn is_mantissa(m: Seq<char>) -> bool {
    let dot = index_of(m, '.');
    if 0 <= dot < m.len() {
        all_digits(m.take(dot)) && all_digits(m.skip(dot + 1)) && m.len() > 1
    } else {
        m.len() > 0 && all_digits(m)
    }
}

/// An optional sign, then one digit or more.
pub open spec fn is_exponent(x: Seq<char>) -> bool {
    let d = unsigned_part(x);
    d.len() > 0 && all_digits(d)
}

/// A mantissa, then optionally `e` or `E` and an exponent.
pub open spec fn is_decimal_number(s: Seq<char>) -> bool {
    let e = index_of(lower(s), 'e');
    if 0 <= e < s.len() {
        is_mantissa(s.take(e)) && is_exponent(s.skip(e + 1))
    } else {
        is_mantissa(s)
    }
}

/// The grammar of floating-point literals: an optional sign, then `inf`,
/// `infinity` or `nan` in any ASCII case, or a decimal number.
pub open spec fn is_float_text(s: Seq<char>) -> bool {
    let body = unsigned_part(s);
    let l = lower(body);
    l == "inf"@ || l == "infinity"@ || l == "nan"@ || is_decimal_number(body)
}

fn vec_all_digits(s: &Vec<char>) -> (r: bool)
    ensures
        r == all_digits(s@),
{
    let mut i: usize = 0;
    while i < s.len()
        invariant
            i <= s.len(),
            forall|j: int| 0 <= j < i ==> is_digit(#[trigger] s@[j]),
        decreases s.len() - i,
    {
        if !char_is_digit(s[i]) {
            return false;
        }
        i += 1;
    }
    true
}

fn drop_sign(s: &Vec<char>) -> (r: Vec<char>)
    ensures
        r@ == unsigned_part(s@),
{
    if s.len() > 0 && (s[0] == '+' || s[0] == '-') {
        let r = subvec(s, 1, s.len());
        r
    } else {
        let r = subvec(s, 0, s.len());
        r
    }
}

fn vec_is_mantissa(m: &Vec<char>) -> (r: bool)
    ensures
        r == is_mantissa(m@),
{
    assert(m@.skip(0) =~= m@);
    match find_char(m, 0, '.') {
        Some(dot) => {
            let before = subvec(m, 0, dot);
            let after = subvec(m, dot + 1, m.len());
            vec_all_digits(&before) && vec_all_digits(&after) && m.len() > 1
        },
        None => m.len() > 0 && vec_all_digits(m),
    }
}

fn vec_is_exponent(x: &Vec<char>) -> (r: bool)
    ensures
        r == is_exponent(x@),
{
    let d = drop_sign(x);
    d.len() > 0 && vec_all_digits(&d)
}

fn vec_is_decimal_number(s: &Vec<char>) -> (r: bool)
    ensures
        r == is_decimal_number(s@),
{
    let l = to_lower_vec(s);
    assert(l@.skip(0) =~= l@);
    match find_char(&l, 0, 'e') {
        Some(e) => {
            let mantissa = subvec(s, 0, e);
            let exponent = subvec(s, e + 1, s.len());
            vec_is_mantissa(&mantissa) && vec_is_exponent(&exponent)
        },
        None => vec_is_mantissa(s),
    }
}



/// Whether `s` is written as a floating-point literal.
pub fn is_float_literal(s: &Vec<char>) -> (r: bool)
    ensures
        r == is_float_text(s@),
{
    let body = drop_sign(s);
    let l = to_lower_vec(&body);
    equals_str(&l, "inf") || equals_str(&l, "infinity") || equals_str(&l, "nan") || vec_is_decimal_number(
        &body,
    )
}

// ---------------------------------------------------------------------------
// One literal
// ---------------------------------------------------------------------------

/// The value of a bare literal, trimmed and not empty: `NULL`, `true` and
/// `false` in any ASCII case, then a signed 64-bit integer, then a
/// floating-point literal.
pub open spec fn classify(t: Seq<char>) -> Result<SqlValueView, LiteralErrorView> {
    if eq_ignore_case(t, "NULL"@) {
        Ok(SqlValueView::Null)
    } else if eq_ignore_case(t, "true"@) {
        Ok(SqlValueView::Boolean(true))
    } else if eq_ignore_case(t, "false"@) {
        Ok(SqlValueView::Boolean(false))
    } else {
        match i64_literal(t) {
            Some(v) => Ok(SqlValueView::Integer(v)),
            None => if is_float_text(t) {
                Ok(SqlValueView::Float(t))
            } else {
                Err(LiteralErrorView::InvalidLiteral { text: t })
            },
        }
    }
}

/// The value of a single bare literal with whitespace around it.
pub open spec fn single_value(text: Seq<char>) -> Result<SqlValueView, LiteralErrorView> {
    let t = trim(text);
    if t.len() == 0 {
        Err(LiteralErrorView::EmptyValue)
    } else {
        classify(t)
    }
}

/// The result of a literal parser, in views.
pub open spec fn value_result_view(r: Result<SqlValue, LiteralError>) -> Result<
    SqlValueView,
    LiteralErrorView,
> {
    match r {
        Ok(v) => Ok(v@),
        Err(e) => Err(e@),
    }
}

fn classify_chars(t: &Vec<char>) -> (r: Result<SqlValue, LiteralError>)
    ensures
        value_result_view(r) == classify(t@),
{
    if equals_str_ignore_case(t, "NULL") {
        Ok(SqlValue::Null)
    } else if equals_str_ignore_case(t, "true") {
        Ok(SqlValue::Boolean(true))
    } else if equals_str_ignore_case(t, "false") {
        Ok(SqlValue::Boolean(false))
    } else {
        match parse_i64(t) {
            Some(v) => Ok(SqlValue::Integer(v)),
            None => if is_float_literal(t) {
                Ok(SqlValue::Float(string_of(t)))
            } else {
                Err(LiteralError::InvalidLiteral { text: string_of(t) })
            },
        }
    }
}

/// Parses one bare literal: `NULL`, a boolean, an integer or a
/// floating-point number.
pub fn parse_single_value(value_str: &str) -> (r: Result<SqlValue, LiteralError>)
    ensures
        value_result_view(r) == single_value(value_str@),
{
    let chars = chars_of(value_str);
    let t = trim_vec(&chars);
    if t.len() == 0 {
        Err(LiteralError::EmptyValue)
    } else {
        classify_chars(&t)
    }
}

// ---------------------------------------------------------------------------
// Literal lists
// ---------------------------------------------------------------------------

/// The number of characters of `s` before its first `,` or `'`.
pub open spec fn field_stop(s: Seq<char>) -> int
    decreases s.len(),
{
    if s.len() > 0 && s[0] != ',' && s[0] != '\'' {
        1 + field_stop(s.drop_first())
    } else {
        0
    }
}

/// Before the stop of a field stands neither comma nor quote, and one of them or the end at it.
pub proof fn lemma_field_stop(s: Seq<char>)
    ensures
        0 <= field_stop(s) <= s.len(),
        forall|i: int| 0 <= i < field_stop(s) ==> s[i] != ',' && s[i] != '\'',
        field_stop(s) < s.len() ==> s[field_stop(s)] == ',' || s[field_stop(s)] == '\'',
    decreases s.len(),
{
    if s.len() > 0 && s[0] != ',' && s[0] != '\'' {
        lemma_field_stop(s.drop_first());
        assert forall|i: int| 0 <= i < field_stop(s) implies s[i] != ',' && s[i] != '\'' by {
            if i > 0 {
                assert(s[i] == s.drop_first()[i - 1]);
            }
        }
    }
}

/// The field stops at `k`, given that a comma, a quote or the end stands at `k` and none before.
pub proof fn lemma_field_stop_at(s: Seq<char>, k: int)
    requires
        0 <= k <= s.len(),
        forall|i: int| 0 <= i < k ==> s[i] != ',' && s[i] != '\'',
        k < s.len() ==> s[k] == ',' || s[k] == '\'',
    ensures
        field_stop(s) == k,
{
    lemma_field_stop(s);
}

/// Reads the body of a quoted string from just behind its opening quote:
/// the content, with each doubled quote standing for one quote, and the
/// index of the closing quote. `None` where no quote closes the string.
pub open spec fn scan_string(s: Seq<char>) -> Option<(Seq<char>, int)>
    decreases s.len(),
{
    if s.len() == 0 {
        None
    } else if s[0] == '\'' {
        if s.len() >= 2 && s[1] == '\'' {
            match scan_string(s.skip(2)) {
                Some((content, end)) => Some((seq!['\''] + content, end + 2)),
                None => None,
            }
        } else {
            Some((Seq::empty(), 0))
        }
    } else {
        match scan_string(s.drop_first()) {
            Some((content, end)) => Some((seq![s[0]] + content, end + 1)),
            None => None,
        }
    }
}

/// The closing quote of a string lies within the text.
pub proof fn lemma_scan_string(s: Seq<char>)
    ensures
        scan_string(s) matches Some((content, end)) ==> 0 <= end < s.len() && s[end] == '\'',
    decreases s.len(),
{
    if s.len() == 0 {
    } else if s[0] == '\'' {
        if s.len() >= 2 && s[1] == '\'' {
            lemma_scan_string(s.skip(2));
        }
    } else {
        lemma_scan_string(s.drop_first());
    }
}

/// `values` followed by what `rest` gives, or the error of `rest`.
pub open spec fn prepend_values(
    values: Seq<SqlValueView>,
    rest: Result<Seq<SqlValueView>, LiteralErrorView>,
) -> Result<Seq<SqlValueView>, LiteralErrorView> {
    match rest {
        Ok(more) => Ok(values + more),
        Err(e) => Err(e),
    }
}

/// What a field without a quote gives: nothing where it is blank, else the
/// value of its trimmed text.
pub open spec fn bare_field(t: Seq<char>) -> Result<Seq<SqlValueView>, LiteralErrorView> {
    let f = trim(t);
    if f.len() == 0 {
        Ok(Seq::empty())
    } else {
        match classify(f) {
            Ok(v) => Ok(seq![v]),
            Err(e) => Err(e),
        }
    }
}

/// The values of a literal list, read from the start of a field.
///
/// A field runs to the next `,` outside a string. Where a `'` comes first,
/// what stands before it is dropped, the string runs to its closing quote,
/// and what follows is dropped up to the next `,`.
pub open spec fn scan_values(s: Seq<char>) -> Result<Seq<SqlValueView>, LiteralErrorView>
    decreases s.len(),
{
    let stop = field_stop(s);
    if stop < 0 || stop >= s.len() {
        bare_field(s)
    } else if s[stop] == ',' {
        match bare_field(s.take(stop)) {
            Err(e) => Err(e),
            Ok(values) => prepend_values(values, scan_values(s.skip(stop + 1))),
        }
    } else {
        match scan_string(s.skip(stop + 1)) {
            None => Err(LiteralErrorView::UnterminatedString),
            Some((content, end)) => {
                let value = SqlValueView::String(content);
                let after = s.skip(stop + 1).skip(end + 1);
                let comma = index_of(after, ',');
                if 0 <= end && end + 1 <= s.len() - (stop + 1) && 0 <= comma < after.len() {
                    prepend_values(seq![value], scan_values(after.skip(comma + 1)))
                } else {
                    Ok(seq![value])
                }
            },
        }
    }
}

/// The values of a literal list. A list without a value is refused.
pub open spec fn parse_values_text(s: Seq<char>) -> Result<Seq<SqlValueView>, LiteralErrorView> {
    match scan_values(s) {
        Err(e) => Err(e),
        Ok(values) => if values.len() == 0 {
            Err(LiteralErrorView::NoValuesProvided)
        } else {
            Ok(values)
        },
    }
}

/// The result of [`parse_values`], in views.
pub open spec fn values_result_view(r: Result<Vec<SqlValue>, LiteralError>) -> Result<
    Seq<SqlValueView>,
    LiteralErrorView,
> {
    match r {
        Ok(values) => Ok(row_view(values@)),
        Err(e) => Err(e@),
    }
}

/// Reads a string body at `s[from..]`: the content and the index of the
/// closing quote.
fn read_string(s: &Vec<char>, from: usize) -> (r: Option<(Vec<char>, usize)>)
    requires
        from <= s.len(),
    ensures
        match r {
            Some((content, end)) => from <= end < s.len() && scan_string(s@.skip(from as int))
                == Some((content@, end - from)),
            None => scan_string(s@.skip(from as int)) is None,
        },
{
    let mut content: Vec<char> = Vec::new();
    let mut j: usize = from;
    let ghost body = s@.skip(from as int);
    loop
        invariant
            from <= j <= s.len(),
            body == s@.skip(from as int),
            scan_string(body) == match scan_string(s@.skip(j as int)) {
                Some((c, n)) => Some((content@ + c, (j - from) + n)),
                None => None,
            },
        decreases s.len() - j,
    {
        let ghost rest = s@.skip(j as int);
        if j == s.len() {
            return None;
        }
        if s[j] == '\'' {
            if j + 1 < s.len() && s[j + 1] == '\'' {
                assert(rest.skip(2) =~= s@.skip(j + 2));
                proof {
                    match scan_string(s@.skip(j + 2)) {
                        Some((c, n)) => {
                        },
                        None => {},
                    }
                }
                content.push('\'');
                j += 2;
            } else {
                return Some((content, j));
            }
        } else {
            assert(rest.drop_first() =~= s@.skip(j + 1));
            proof {
                match scan_string(s@.skip(j + 1)) {
                    Some((c, n)) => {
                    },
                    None => {},
                }
            }
            content.push(s[j]);
            j += 1;
        }
    }
}

fn parse_values_chars(s: &Vec<char>) -> (r: Result<Vec<SqlValue>, LiteralError>)
    ensures
        values_result_view(r) == parse_values_text(s@),
{
    let mut values: Vec<SqlValue> = Vec::new();
    let mut pos: usize = 0;
    assert(s@.skip(0) =~= s@);
    let mut done = false;
    while !done
        invariant
            pos <= s.len(),
            !done ==> scan_values(s@) == prepend_values(
                row_view(values@),
                scan_values(s@.skip(pos as int)),
            ),
            done ==> scan_values(s@) == Ok::<Seq<SqlValueView>, LiteralErrorView>(row_view(values@)),
        decreases s.len() - pos + (if done { 0int } else { 1int }),
    {
        let ghost rest = s@.skip(pos as int);
        let ghost before = row_view(values@);
        let mut stop: usize = pos;
        while stop < s.len() && s[stop] != ',' && s[stop] != '\''
            invariant
                pos <= stop <= s.len(),
                forall|i: int| pos <= i < stop ==> s@[i] != ',' && s@[i] != '\'',
            decreases s.len() - stop,
        {
            stop += 1;
        }
        proof {
            assert forall|i: int| 0 <= i < stop - pos implies rest[i] != ',' && rest[i] != '\'' by {}
            lemma_field_stop_at(rest, stop - pos);
        }
        if stop == s.len() || s[stop] == ',' {
            let piece = subvec(s, pos, stop);
            proof {
                if stop != s.len() {
                    assert(piece@ =~= rest.take(stop - pos));
                    assert(rest.skip(stop - pos + 1) =~= s@.skip(stop + 1));
                }
            }
            let field = trim_vec(&piece);
            if field.len() > 0 {
                match classify_chars(&field) {
                    Err(e) => {
                        return Err(e);
                    },
                    Ok(v) => {
                        proof {
                            lemma_row_view_push(values@, v);
                            assert(before + seq![v@] =~= before.push(v@));
                            if stop < s.len() {
                                match scan_values(s@.skip(stop + 1)) {
                                    Ok(more) => {
                                        assert(before + (seq![v@] + more) =~= before.push(v@) + more);
                                    },
                                    Err(_) => {},
                                }
                            }
                        }
                        values.push(v);
                    },
                }
            }
            if stop == s.len() {
                done = true;
            } else {
                pos = stop + 1;
            }
        } else {
            assert(rest.skip(stop - pos + 1) =~= s@.skip(stop + 1));
            match read_string(s, stop + 1) {
                None => {
                    return Err(LiteralError::UnterminatedString);
                },
                Some((content, end)) => {
                    let v = SqlValue::String(string_of(&content));
                    let ghost after = s@.skip(stop + 1).skip(end - (stop + 1) + 1);
                    assert(after =~= s@.skip(end + 1));
                    let comma = find_char(s, end + 1, ',');
                    proof {
                        lemma_row_view_push(values@, v);
                        assert(before + seq![v@] =~= before.push(v@));
                    }
                    match comma {
                        Some(k) => {
                            proof {
                                assert(after.skip(k - (end + 1) + 1) =~= s@.skip(k + 1));
                                match scan_values(s@.skip(k + 1)) {
                                    Ok(more) => {
                                        assert(before + (seq![v@] + more) =~= before.push(v@) + more);
                                    },
                                    Err(_) => {},
                                }
                            }
                            values.push(v);
                            pos = k + 1;
                        },
                        None => {
                            values.push(v);
                            done = true;
                        },
                    }
                },
            }
        }
    }
    if values.len() == 0 {
        Err(LiteralError::NoValuesProvided)
    } else {
        Ok(values)
    }
}

/// The values that a scan gives are parsed values.
pub proof fn lemma_scan_values_parsed(s: Seq<char>)
    requires
        scan_values(s) is Ok,
    ensures
        is_parsed_row(scan_values(s)->Ok_0),
    decreases s.len(),
{
    let stop = field_stop(s);
    lemma_field_stop(s);
    let all = scan_values(s)->Ok_0;
    if stop >= s.len() {
    } else if s[stop] == ',' {
        let rest = s.skip(stop + 1);
        lemma_scan_values_parsed(rest);
        assert forall|i: int| 0 <= i < all.len() implies is_parsed_value(#[trigger] all[i]) by {}
    } else {
        let (content, end) = scan_string(s.skip(stop + 1))->0;
        lemma_scan_string(s.skip(stop + 1));
        let after = s.skip(stop + 1).skip(end + 1);
        let comma = index_of(after, ',');
        if 0 <= comma < after.len() {
            let rest = after.skip(comma + 1);
            lemma_scan_values_parsed(rest);
            assert forall|i: int| 0 <= i < all.len() implies is_parsed_value(#[trigger] all[i]) by {}
        }
    }
}

/// Parses a comma-separated literal list such as `1, 'John''s', true, NULL`.
pub fn parse_values(values_str: &str) -> (r: Result<Vec<SqlValue>, LiteralError>)
    ensures
        values_result_view(r) == parse_values_text(values_str@),
        r matches Ok(values) ==> is_parsed_row(row_view(values@)),
{
    let chars = chars_of(values_str);
    let r = parse_values_chars(&chars);
    proof {
        if r is Ok {
            lemma_scan_values_parsed(values_str@);
        }
    }
    r
}

// ---------------------------------------------------------------------------
// Rendering and messages
// ---------------------------------------------------------------------------

/// The literal that writes a value: an integer in decimal, a floating-point
/// number as it was written, a string between single quotes, `true`,
/// `false` or `NULL`.
pub open spec fn literal_text(v: SqlValueView) -> Seq<char> {
    match v {
        SqlValueView::Integer(i) => int_text(i as int),
        SqlValueView::Float(t) => t,
        SqlValueView::String(s) => "'"@ + s + "'"@,
        SqlValueView::Boolean(b) => if b {
            "true"@
        } else {
            "false"@
        },
        SqlValueView::Null => "NULL"@,
    }
}

/// The word that names the kind of a value.
pub open spec fn kind_text(v: SqlValueView) -> Seq<char> {
    match v {
        SqlValueView::Integer(_) => "integer"@,
        SqlValueView::Float(_) => "number"@,
        SqlValueView::String(_) => "string"@,
        SqlValueView::Boolean(_) => "boolean"@,
        SqlValueView::Null => "null"@,
    }
}

/// Appends the literal of `v` to `m`.
pub fn push_literal(m: &mut String, v: &SqlValue)
    ensures
        final(m)@ == old(m)@ + literal_text(v@),
{
    match v {
        SqlValue::Integer(i) => {
            append_chars(m, &int_chars(*i));
        },
        SqlValue::Float(t) => {
            m.append(t.as_str());
        },
        SqlValue::String(s) => {
            m.append("'");
            m.append(s.as_str());
            m.append("'");
        },
        SqlValue::Boolean(b) => {
            if *b {
                m.append("true");
            } else {
                m.append("false");
            }
        },
        SqlValue::Null => {
            m.append("NULL");
        },
    }
}

impl SqlValue {
    /// The literal that writes the value.
    pub fn render(&self) -> (r: String)
        ensures
            r@ == literal_text(self@),
    {
        let mut m = String::new();
        push_literal(&mut m, self);
        m
    }

    /// The word that names the kind of the value.
    pub fn kind_name(&self) -> (r: &'static str)
        ensures
            r@ == kind_text(self@),
    {
        match self {
            SqlValue::Integer(_) => "integer",
            SqlValue::Float(_) => "number",
            SqlValue::String(_) => "string",
            SqlValue::Boolean(_) => "boolean",
            SqlValue::Null => "null",
        }
    }
}

/// The text that explains a refused literal list, with examples.
pub open spec fn literal_message(e: LiteralErrorView) -> Seq<char> {
    match e {
        LiteralErrorView::UnterminatedString => {
            "❌ **Unterminated string** - Missing closing quote\n\n**Example:** `'John'` instead of `'John`"@
        },
        LiteralErrorView::InvalidLiteral { text } => {
            "❌ **Invalid value:** `"@ +
            text +
            "`\n\n**Valid formats:**\n• Numbers: `42`, `3.14`\n• Booleans: `true`, `false`\n• Strings: `'text'`\n• NULL: `NULL`"@
        },
        LiteralErrorView::NoValuesProvided => {
            "❌ **No values provided**\n\n**Examples:**\n• `1, 'John', true`\n• `42, 'Alice', false, NULL`"@
        },
        LiteralErrorView::EmptyValue => {
            "❌ **Empty value** - Use NULL for empty values"@
        },
    }
}

impl LiteralError {
    /// The text that explains the error.
    pub fn message(&self) -> (r: String)
        ensures
            r@ == literal_message(self@),
    {
        match self {
            LiteralError::UnterminatedString => {
                let mut m = String::from_str("❌ **Unterminated string** - Missing closing quote\n\n**Example:** `'John'` instead of `'John`");
                m
            },
            LiteralError::InvalidLiteral { text } => {
                let mut m = String::from_str("❌ **Invalid value:** `");
                m.append(text.as_str());
                m.append("`\n\n**Valid formats:**\n• Numbers: `42`, `3.14`\n• Booleans: `true`, `false`\n• Strings: `'text'`\n• NULL: `NULL`");
                m
            },
            LiteralError::NoValuesProvided => {
                let mut m = String::from_str("❌ **No values provided**\n\n**Examples:**\n• `1, 'John', true`\n• `42, 'Alice', false, NULL`");
                m
            },
            LiteralError::EmptyValue => {
                let mut m = String::from_str("❌ **Empty value** - Use NULL for empty values");
                m
            },
        }
    }
}

/// Parses a literal list as [`parse_values`] does, and explains a refusal
/// in words.
pub fn parse_sql_values(values_str: &str) -> (r: Result<Vec<SqlValue>, String>)
    ensures
        match r {
            Ok(values) => parse_values_text(values_str@) == Ok::<
                Seq<SqlValueView>,
                LiteralErrorView,
            >(row_view(values@)),
            Err(m) => parse_values_text(values_str@) is Err && m@ == literal_message(
                parse_values_text(values_str@)->Err_0,
            ),
        },
{
    match parse_values(values_str) {
        Ok(values) => Ok(values),
        Err(e) => Err(e.message()),
    }
}

} // verus!
