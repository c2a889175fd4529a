//! Validation of a row against a schema: arity, nullability, types, length
//! limits and the ISO forms of dates and times.

use vstd::prelude::*;
use crate::datetime::{
    is_date_chars, is_datetime_chars, is_iso_date, is_iso_datetime, is_iso_time, is_time_chars,
};
use crate::schema::{schema_view, ColumnDefinition, ColumnView, DataType};
use crate::text::{append_chars, chars_of, decimal, decimal_chars, subvec};
use crate::values::{kind_text, literal_text, push_literal, row_view, SqlValue, SqlValueView};

verus! {

/// Why a row was refused.
#[derive(Debug, Clone)]
#[allow(inconsistent_fields)]
pub enum Violation {
    /// The row has not as many values as the schema has columns.
    ArityMismatch { expected: usize, actual: usize },
    /// `NULL` stands in a column that is `NOT NULL`.
    NullNotAllowed { column: String, position: usize, data_type: DataType },
    /// The value is not of the column's type, or not in the form that the
    /// type asks for.
    TypeMismatch { column: String, position: usize, expected: DataType, actual: SqlValue },
    /// The string has more characters than the column's size allows.
    StringTooLong { column: String, position: usize, len: usize, max: u32, text: String },
}

/// The mathematical value of a [`Violation`].
#[allow(inconsistent_fields)]
pub enum ViolationView {
    ArityMismatch { expected: usize, actual: usize },
    NullNotAllowed { column: Seq<char>, position: usize, data_type: DataType },
    TypeMismatch { column: Seq<char>, position: usize, expected: DataType, actual: SqlValueView },
    StringTooLong { column: Seq<char>, position: usize, len: usize, max: u32, text: Seq<char> },
}

impl View for Violation {
    type V = ViolationView;

    open spec fn view(&self) -> ViolationView {
        match self {
            Violation::ArityMismatch { expected, actual } => ViolationView::ArityMismatch {
                expected: *expected,
                actual: *actual,
            },
            Violation::NullNotAllowed { column, position, data_type } => ViolationView::NullNotAllowed {
                column: column@,
                position: *position,
                data_type: *data_type,
            },
            Violation::TypeMismatch { column, position, expected, actual } => ViolationView::TypeMismatch {
                column: column@,
                position: *position,
                expected: *expected,
                actual: actual@,
            },
            Violation::StringTooLong { column, position, len, max, text } => ViolationView::StringTooLong {
                column: column@,
                position: *position,
                len: *len,
                max: *max,
                text: text@,
            },
        }
    }
}

// ---------------------------------------------------------------------------
// The rules
// ---------------------------------------------------------------------------

/// A value that is not `NULL` is of the type `t`: an integer for `INT`, a
/// string for the character types, a boolean for `BOOLEAN`, an integer or a
/// floating-point number for the fractional types, and for `DATE`, `TIME`
/// and `DATETIME` a string in the ISO form of the type.
pub open spec fn has_type(v: SqlValueView, t: DataType) -> bool {
    match t {
        DataType::Int => v is Integer,
        DataType::Varchar | DataType::Char => v is String,
        DataType::Boolean => v is Boolean,
        DataType::Float | DataType::Double | DataType::Decimal => v is Integer || v is Float,
        DataType::Date => v matches SqlValueView::String(s) && is_iso_date(s),
        DataType::Time => v matches SqlValueView::String(s) && is_iso_time(s),
        DataType::DateTime => v matches SqlValueView::String(s) && is_iso_datetime(s),
    }
}

/// What is wrong with the value `v` in the column `c`, which stands at
/// `position`, counted from 1; `None` where the value is accepted.
pub open spec fn check_value(v: SqlValueView, c: ColumnView, position: usize) -> Option<
    ViolationView,
> {
    if v is Null {
        if c.nullable {
            None
        } else {
            Some(
                ViolationView::NullNotAllowed {
                    column: c.name,
                    position: position,
                    data_type: c.data_type,
                },
            )
        }
    } else if !has_type(v, c.data_type) {
        Some(
            ViolationView::TypeMismatch {
                column: c.name,
                position: position,
                expected: c.data_type,
                actual: v,
            },
        )
    } else if c.data_type.is_text() && c.size is Some && v->String_0.len() > c.size->0 {
        Some(
            ViolationView::StringTooLong {
                column: c.name,
                position: position,
                len: v->String_0.len() as usize,
                max: c.size->0,
                text: v->String_0,
            },
        )
    } else {
        None
    }
}

/// The first violation among the values from index `i` on, each checked
/// against the column at its index.
pub open spec fn first_violation(values: Seq<SqlValueView>, schema: Seq<ColumnView>, i: int) -> Option<
    ViolationView,
>
    decreases values.len() - i,
{
    if i < 0 || i >= values.len() || i >= schema.len() {
        None
    } else {
        match check_value(values[i], schema[i], (i + 1) as usize) {
            Some(v) => Some(v),
            None => first_violation(values, schema, i + 1),
        }
    }
}

/// The verdict on a row. An empty schema accepts every row. Otherwise the
/// row must have one value for each column, and the first value that its
/// column refuses decides the violation.
pub open spec fn validate_row(values: Seq<SqlValueView>, schema: Seq<ColumnView>) -> Result<
    (),
    ViolationView,
> {
    if schema.len() == 0 {
        Ok(())
    } else if values.len() != schema.len() {
        Err(
            ViolationView::ArityMismatch {
                expected: schema.len() as usize,
                actual: values.len() as usize,
            },
        )
    } else {
        match first_violation(values, schema, 0) {
            Some(v) => Err(v),
            None => Ok(()),
        }
    }
}

/// The result of [`validate`], in views.
pub open spec fn verdict_view(r: Result<(), Violation>) -> Result<(), ViolationView> {
    match r {
        Ok(()) => Ok(()),
        Err(e) => Err(e@),
    }
}

fn value_has_type(v: &SqlValue, t: DataType) -> (r: bool)
    ensures
        r == has_type(v@, t),
{
    match t {
        DataType::Int => match v {
            SqlValue::Integer(_) => true,
            _ => false,
        },
        DataType::Varchar | DataType::Char => match v {
            SqlValue::String(_) => true,
            _ => false,
        },
        DataType::Boolean => match v {
            SqlValue::Boolean(_) => true,
            _ => false,
        },
        DataType::Float | DataType::Double | DataType::Decimal => match v {
            SqlValue::Integer(_) => true,
            SqlValue::Float(_) => true,
            _ => false,
        },
        DataType::Date => match v {
            SqlValue::String(s) => is_date_chars(&chars_of(s.as_str())),
            _ => false,
        },
        DataType::Time => match v {
            SqlValue::String(s) => is_time_chars(&chars_of(s.as_str())),
            _ => false,
        },
        DataType::DateTime => match v {
            SqlValue::String(s) => is_datetime_chars(&chars_of(s.as_str())),
            _ => false,
        },
    }
}

/// Checks one value against the column that stands at `position`, counted
/// from 1.
pub fn validate_sql_value_type(value: &SqlValue, column: &ColumnDefinition, position: usize) -> (r:
    Result<(), Violation>)
    ensures
        match r {
            Ok(()) => check_value(value@, column@, position) is None,
            Err(e) => check_value(value@, column@, position) == Some(e@),
        },
{
    if let SqlValue::Null = value {
        if column.nullable {
            return Ok(());
        }
        return Err(
            Violation::NullNotAllowed {
                column: column.name.clone(),
                position: position,
                data_type: column.data_type,
            },
        );
    }
    if !value_has_type(value, column.data_type) {
        return Err(
            Violation::TypeMismatch {
                column: column.name.clone(),
                position: position,
                expected: column.data_type,
                actual: value.duplicate(),
            },
        );
    }
    match column.data_type {
        DataType::Varchar | DataType::Char => {
            if let SqlValue::String(s) = value {
                if let Some(max) = column.size {
                    let len = s.as_str().unicode_len();
                    if len > max as usize {
                        return Err(
                            Violation::StringTooLong {
                                column: column.name.clone(),
                                position: position,
                                len: len,
                                max: max,
                                text: s.clone(),
                            },
                        );
                    }
                }
            }
            Ok(())
        },
        _ => Ok(()),
    }
}

/// Validates a row against a schema.
///
/// An empty schema accepts every row. Otherwise the row must have exactly
/// one value for each column, and each value must be accepted by the column
/// at its place; the first that is not decides the violation.
pub fn validate(values: &[SqlValue], schema: &[ColumnDefinition]) -> (r: Result<(), Violation>)
    ensures
        verdict_view(r) == validate_row(row_view(values@), schema_view(schema@)),
        schema.len() >= 1 && values.len() != schema.len() ==> r is Err,
{
    if schema.len() == 0 {
        return Ok(());
    }
    if values.len() != schema.len() {
        return Err(Violation::ArityMismatch { expected: schema.len(), actual: values.len() });
    }
    let ghost vs = row_view(values@);
    let ghost cs = schema_view(schema@);
    let mut i: usize = 0;
    while i < values.len()
        invariant
            i <= values.len(),
            values.len() == schema.len(),
            vs == row_view(values@),
            cs == schema_view(schema@),
            first_violation(vs, cs, 0) == first_violation(vs, cs, i as int),
        decreases values.len() - i,
    {
        match validate_sql_value_type(&values[i], &schema[i], i + 1) {
            Err(e) => {
                return Err(e);
            },
            Ok(()) => {},
        }
        i += 1;
    }
    Ok(())
}

// ---------------------------------------------------------------------------
// Messages
// ---------------------------------------------------------------------------

/// An example literal for a column of type `t`.
pub open spec fn example_literal(t: DataType) -> Seq<char> {
    match t {
        DataType::Int => "42"@,
        DataType::Varchar | DataType::Char => "'text'"@,
        DataType::Boolean => "true"@,
        DataType::Float | DataType::Double | DataType::Decimal => "3.14"@,
        DataType::Date => "'2023-12-25'"@,
        DataType::Time => "'14:30:00'"@,
        DataType::DateTime => "'2023-12-25T14:30:00Z'"@,
    }
}

/// An example row for a schema: one example literal for each column,
/// separated by `, `.
pub open spec fn example_values(schema: Seq<ColumnView>) -> Seq<char>
    decreases schema.len(),
{
    if schema.len() == 0 {
        Seq::empty()
    } else if schema.len() == 1 {
        example_literal(schema[0].data_type)
    } else {
        example_values(schema.drop_last()) + ", "@ + example_literal(schema.last().data_type)
    }
}

/// The names of the columns of a schema, separated by `, `.
pub open spec fn column_names(schema: Seq<ColumnView>) -> Seq<char>
    decreases schema.len(),
{
    if schema.len() == 0 {
        Seq::empty()
    } else if schema.len() == 1 {
        schema[0].name
    } else {
        column_names(schema.drop_last()) + ", "@ + schema.last().name
    }
}

/// The first twenty characters of `text`, or all of it where it is shorter.
pub open spec fn preview(text: Seq<char>) -> Seq<char> {
    if text.len() <= 20 {
        text
    } else {
        text.take(20)
    }
}

fn example_for(t: DataType) -> (r: &'static str)
    ensures
        r@ == example_literal(t),
{
    match t {
        DataType::Int => "42",
        DataType::Varchar | DataType::Char => "'text'",
        DataType::Boolean => "true",
        DataType::Float | DataType::Double | DataType::Decimal => "3.14",
        DataType::Date => "'2023-12-25'",
        DataType::Time => "'14:30:00'",
        DataType::DateTime => "'2023-12-25T14:30:00Z'",
    }
}

fn push_example_values(m: &mut String, schema: &[ColumnDefinition])
    ensures
        final(m)@ == old(m)@ + example_values(schema_view(schema@)),
{
    let ghost all = schema_view(schema@);
    let ghost start = m@;
    let mut i: usize = 0;
    while i < schema.len()
        invariant
            i <= schema.len(),
            all == schema_view(schema@),
            m@ == start + example_values(all.take(i as int)),
        decreases schema.len() - i,
    {
        let ghost after = all.take(i + 1);
        assert(after.drop_last() =~= all.take(i as int));
        if i > 0 {
            m.append(", ");
        }
        m.append(example_for(schema[i].data_type));
        i += 1;
    }
    assert(all.take(schema.len() as int) =~= all);
}

fn push_column_names(m: &mut String, schema: &[ColumnDefinition])
    ensures
        final(m)@ == old(m)@ + column_names(schema_view(schema@)),
{
    let ghost all = schema_view(schema@);
    let ghost start = m@;
    let mut i: usize = 0;
    while i < schema.len()
        invariant
            i <= schema.len(),
            all == schema_view(schema@),
            m@ == start + column_names(all.take(i as int)),
        decreases schema.len() - i,
    {
        let ghost after = all.take(i + 1);
        assert(after.drop_last() =~= all.take(i as int));
        if i > 0 {
            m.append(", ");
        }
        m.append(schema[i].name.as_str());
        i += 1;
    }
    assert(all.take(schema.len() as int) =~= all);
}

/// An example row for a schema.
pub fn generate_example_values(schema: &[ColumnDefinition]) -> (r: String)
    ensures
        r@ == example_values(schema_view(schema@)),
{
    let mut m = String::new();
    push_example_values(&mut m, schema);
    m
}

fn preview_chars(text: &String) -> (r: Vec<char>)
    ensures
        r@ == preview(text@),
{
    let chars = chars_of(text.as_str());
    if chars.len() <= 20 {
        chars
    } else {
        let r = subvec(&chars, 0, 20);
        r
    }
}

/// The text that explains a value of the wrong type, with a corrective
/// example.
pub open spec fn mismatch_message(
    column: Seq<char>,
    position: usize,
    expected: DataType,
    actual: SqlValueView,
) -> Seq<char> {
    match expected {
        DataType::Int => {
            "❌ **Type mismatch** for column **"@ +
            column +
            "** (position "@ +
            decimal(position as nat) +
            ")\n\nExpected: **integer**\nGot: **"@ +
            kind_text(actual) +
            "**\n\n**Example:** `42` instead of `"@ +
            literal_text(actual) +
            "`"@
        },
        DataType::Varchar | DataType::Char => {
            "❌ **Type mismatch** for column **"@ +
            column +
            "** (position "@ +
            decimal(position as nat) +
            ")\n\nExpected: **string**\nGot: **"@ +
            kind_text(actual) +
            "**\n\n**Example:** `'John'` instead of `"@ +
            literal_text(actual) +
            "`"@
        },
        DataType::Boolean => {
            "❌ **Type mismatch** for column **"@ +
            column +
            "** (position "@ +
            decimal(position as nat) +
            ")\n\nExpected: **boolean**\nGot: **"@ +
            kind_text(actual) +
            "**\n\n**Example:** `true` or `false` instead of `"@ +
            literal_text(actual) +
            "`"@
        },
        DataType::Float | DataType::Double | DataType::Decimal => {
            "❌ **Type mismatch** for column **"@ +
            column +
            "** (position "@ +
            decimal(position as nat) +
            ")\n\nExpected: **number**\nGot: **"@ +
            kind_text(actual) +
            "**\n\n**Examples:** `3.14` or `42` instead of `"@ +
            literal_text(actual) +
            "`"@
        },
        DataType::Date => if actual is String {
            "❌ **Invalid DATE format** for column **"@ +
            column +
            "** (position "@ +
            decimal(position as nat) +
            ")\n\nExpected: **ISO 8601 date** (YYYY-MM-DD)\nGot: **"@ +
            literal_text(actual) +
            "**\n\n**Valid examples:**\n• `'2025-08-19'`\n• `'2023-12-25'`\n• `'2024-02-29'` (leap year)"@
        } else {
            "❌ **Type mismatch** for column **"@ +
            column +
            "** (position "@ +
            decimal(position as nat) +
            ")\n\nExpected: **string** (ISO date format)\nGot: **"@ +
            kind_text(actual) +
            "**\n\n**Examples:**\n• DATE: `'2023-12-25'`\n• TIME: `'14:30:00'`\n• DATETIME: `'2023-12-25T14:30:00Z'`"@
        },
        DataType::Time => if actual is String {
            "❌ **Invalid TIME format** for column **"@ +
            column +
            "** (position "@ +
            decimal(position as nat) +
            ")\n\nExpected: **ISO 8601 time** (HH:MM:SS[.fraction][Z|±HH:MM])\nGot: **"@ +
            literal_text(actual) +
            "**\n\n**Valid examples:**\n• `'14:30:00'`\n• `'09:15:30.123'`\n• `'23:59:59Z'`\n• `'12:00:00+02:00'`"@
        } else {
            "❌ **Type mismatch** for column **"@ +
            column +
            "** (position "@ +
            decimal(position as nat) +
            ")\n\nExpected: **string** (ISO date format)\nGot: **"@ +
            kind_text(actual) +
            "**\n\n**Examples:**\n• DATE: `'2023-12-25'`\n• TIME: `'14:30:00'`\n• DATETIME: `'2023-12-25T14:30:00Z'`"@
        },
        DataType::DateTime => if actual is String {
            "❌ **Invalid DATETIME format** for column **"@ +
            column +
            "** (position "@ +
            decimal(position as nat) +
            ")\n\nExpected: **ISO 8601 datetime** (YYYY-MM-DDTHH:MM:SS[.fraction][Z|±HH:MM])\nGot: **"@ +
            literal_text(actual) +
            "**\n\n**Valid examples:**\n• `'2025-08-19T14:30:00Z'`\n• `'2023-12-25T09:15:30.123Z'`\n• `'2024-06-15T12:00:00+02:00'`\n• `'2025-01-01T00:00:00.000Z'`"@
        } else {
            "❌ **Type mismatch** for column **"@ +
            column +
            "** (position "@ +
            decimal(position as nat) +
            ")\n\nExpected: **string** (ISO date format)\nGot: **"@ +
            kind_text(actual) +
            "**\n\n**Examples:**\n• DATE: `'2023-12-25'`\n• TIME: `'14:30:00'`\n• DATETIME: `'2023-12-25T14:30:00Z'`"@
        },
    }
}

/// The text that explains a violation to the user: it names the column and
/// its position and gives a corrective example.
pub open spec fn violation_message(e: ViolationView, schema: Seq<ColumnView>) -> Seq<char> {
    match e {
        ViolationView::ArityMismatch { expected, actual } => {
            "❌ **Value count mismatch:** Expected "@ +
            decimal(expected as nat) +
            " values for columns, got "@ +
            decimal(actual as nat) +
            "\n\n📋 **Expected columns:** "@ +
            column_names(schema) +
            "\n\n**Example:** "@ +
            example_values(schema)
        },
        ViolationView::NullNotAllowed { column, position, data_type } => {
            let t = data_type;
            "❌ **NULL not allowed** for column **"@ +
            column +
            "** (position "@ +
            decimal(position as nat) +
            ")\n\n📋 **Column:** "@ +
            column +
            " "@ +
            t.name() +
            "\n**Required:** This column cannot be NULL"@
        },
        ViolationView::TypeMismatch { column, position, expected, actual } => mismatch_message(
            column,
            position,
            expected,
            actual,
        ),
        ViolationView::StringTooLong { column, position, len, max, text } => {
            "❌ **String too long** for column **"@ +
            column +
            "** (position "@ +
            decimal(position as nat) +
            ")\n\nLength: "@ +
            decimal(len as nat) +
            " characters\nMaximum: "@ +
            decimal(max as nat) +
            " characters\n\n📏 **Current:** '"@ +
            preview(text) +
            "...'\n💡 **Tip:** Shorten the text or increase the column size"@
        },
    }
}

/// The word that names the kind of a value in a message.
pub fn get_sql_value_type_name(value: &SqlValue) -> (r: &'static str)
    ensures
        r@ == kind_text(value@),
{
    value.kind_name()
}

fn is_string(v: &SqlValue) -> (r: bool)
    ensures
        r == (v@ is String),
{
    match v {
        SqlValue::String(_) => true,
        _ => false,
    }
}

fn temporal_message(column: &String, position: usize, actual: &SqlValue) -> (r: String)
    ensures
        r@ == ({
            let column = column@;
            let actual = actual@;
            "❌ **Type mismatch** for column **"@ +
            column +
            "** (position "@ +
            decimal(position as nat) +
            ")\n\nExpected: **string** (ISO date format)\nGot: **"@ +
            kind_text(actual) +
            "**\n\n**Examples:**\n• DATE: `'2023-12-25'`\n• TIME: `'14:30:00'`\n• DATETIME: `'2023-12-25T14:30:00Z'`"@
        }),
{
    let mut m = String::from_str("❌ **Type mismatch** for column **");
                m.append(column.as_str());
                m.append("** (position ");
                append_chars(&mut m, &decimal_chars(position as u64));
                m.append(")\n\nExpected: **string** (ISO date format)\nGot: **");
                m.append(actual.kind_name());
                m.append("**\n\n**Examples:**\n• DATE: `'2023-12-25'`\n• TIME: `'14:30:00'`\n• DATETIME: `'2023-12-25T14:30:00Z'`");
                m
}

fn mismatch_message_string(column: &String, position: usize, expected: DataType, actual: &SqlValue) -> (r:
    String)
    ensures
        r@ == mismatch_message(column@, position, expected, actual@),
{
    match expected {
        DataType::Int => {
            let mut m = String::from_str("❌ **Type mismatch** for column **");
            m.append(column.as_str());
            m.append("** (position ");
            append_chars(&mut m, &decimal_chars(position as u64));
            m.append(")\n\nExpected: **integer**\nGot: **");
            m.append(actual.kind_name());
            m.append("**\n\n**Example:** `42` instead of `");
            push_literal(&mut m, actual);
            m.append("`");
            m
        },
        DataType::Varchar | DataType::Char => {
            let mut m = String::from_str("❌ **Type mismatch** for column **");
            m.append(column.as_str());
            m.append("** (position ");
            append_chars(&mut m, &decimal_chars(position as u64));
            m.append(")\n\nExpected: **string**\nGot: **");
            m.append(actual.kind_name());
            m.append("**\n\n**Example:** `'John'` instead of `");
            push_literal(&mut m, actual);
            m.append("`");
            m
        },
        DataType::Boolean => {
            let mut m = String::from_str("❌ **Type mismatch** for column **");
            m.append(column.as_str());
            m.append("** (position ");
            append_chars(&mut m, &decimal_chars(position as u64));
            m.append(")\n\nExpected: **boolean**\nGot: **");
            m.append(actual.kind_name());
            m.append("**\n\n**Example:** `true` or `false` instead of `");
            push_literal(&mut m, actual);
            m.append("`");
            m
        },
        DataType::Float | DataType::Double | DataType::Decimal => {
            let mut m = String::from_str("❌ **Type mismatch** for column **");
            m.append(column.as_str());
            m.append("** (position ");
            append_chars(&mut m, &decimal_chars(position as u64));
            m.append(")\n\nExpected: **number**\nGot: **");
            m.append(actual.kind_name());
            m.append("**\n\n**Examples:** `3.14` or `42` instead of `");
            push_literal(&mut m, actual);
            m.append("`");
            m
        },
        DataType::Date => if is_string(actual) {
            let mut m = String::from_str("❌ **Invalid DATE format** for column **");
            m.append(column.as_str());
            m.append("** (position ");
            append_chars(&mut m, &decimal_chars(position as u64));
            m.append(")\n\nExpected: **ISO 8601 date** (YYYY-MM-DD)\nGot: **");
            push_literal(&mut m, actual);
            m.append("**\n\n**Valid examples:**\n• `'2025-08-19'`\n• `'2023-12-25'`\n• `'2024-02-29'` (leap year)");
            m
        } else {
            temporal_message(column, position, actual)
        },
        DataType::Time => if is_string(actual) {
            let mut m = String::from_str("❌ **Invalid TIME format** for column **");
            m.append(column.as_str());
            m.append("** (position ");
            append_chars(&mut m, &decimal_chars(position as u64));
            m.append(")\n\nExpected: **ISO 8601 time** (HH:MM:SS[.fraction][Z|±HH:MM])\nGot: **");
            push_literal(&mut m, actual);
            m.append("**\n\n**Valid examples:**\n• `'14:30:00'`\n• `'09:15:30.123'`\n• `'23:59:59Z'`\n• `'12:00:00+02:00'`");
            m
        } else {
            temporal_message(column, position, actual)
        },
        DataType::DateTime => if is_string(actual) {
            let mut m = String::from_str("❌ **Invalid DATETIME format** for column **");
            m.append(column.as_str());
            m.append("** (position ");
            append_chars(&mut m, &decimal_chars(position as u64));
            m.append(")\n\nExpected: **ISO 8601 datetime** (YYYY-MM-DDTHH:MM:SS[.fraction][Z|±HH:MM])\nGot: **");
            push_literal(&mut m, actual);
            m.append("**\n\n**Valid examples:**\n• `'2025-08-19T14:30:00Z'`\n• `'2023-12-25T09:15:30.123Z'`\n• `'2024-06-15T12:00:00+02:00'`\n• `'2025-01-01T00:00:00.000Z'`");
            m
        } else {
            temporal_message(column, position, actual)
        },
    }
}

impl Violation {
    /// The text that explains the violation of a row against `schema`.
    pub fn message(&self, schema: &[ColumnDefinition]) -> (r: String)
        ensures
            r@ == violation_message(self@, schema_view(schema@)),
    {
        match self {
            Violation::ArityMismatch { expected, actual } => {
                let expected = *expected;
                let actual = *actual;
                let mut m = String::from_str("❌ **Value count mismatch:** Expected ");
                append_chars(&mut m, &decimal_chars(expected as u64));
                m.append(" values for columns, got ");
                append_chars(&mut m, &decimal_chars(actual as u64));
                m.append("\n\n📋 **Expected columns:** ");
                push_column_names(&mut m, schema);
                m.append("\n\n**Example:** ");
                push_example_values(&mut m, schema);
                m
            },
            Violation::NullNotAllowed { column, position, data_type } => {
                let position = *position;
                let t = *data_type;
                let mut m = String::from_str("❌ **NULL not allowed** for column **");
                m.append(column.as_str());
                m.append("** (position ");
                append_chars(&mut m, &decimal_chars(position as u64));
                m.append(")\n\n📋 **Column:** ");
                m.append(column.as_str());
                m.append(" ");
                m.append(t.as_str());
                m.append("\n**Required:** This column cannot be NULL");
                m
            },
            Violation::TypeMismatch { column, position, expected, actual } => mismatch_message_string(
                column,
                *position,
                *expected,
                actual,
            ),
            Violation::StringTooLong { column, position, len, max, text } => {
                let position = *position;
                let len = *len;
                let max = *max;
                let mut m = String::from_str("❌ **String too long** for column **");
                m.append(column.as_str());
                m.append("** (position ");
                append_chars(&mut m, &decimal_chars(position as u64));
                m.append(")\n\nLength: ");
                append_chars(&mut m, &decimal_chars(len as u64));
                m.append(" characters\nMaximum: ");
                append_chars(&mut m, &decimal_chars(max as u64));
                m.append(" characters\n\n📏 **Current:** '");
                append_chars(&mut m, &preview_chars(text));
                m.append("...'\n💡 **Tip:** Shorten the text or increase the column size");
                m
            },
        }
    }
}

/// Validates a row as [`validate`] does, and explains a violation in words.
pub fn validate_values_against_schema(values: &[SqlValue], schema: &[ColumnDefinition]) -> (r:
    Result<(), String>)
    ensures
        match r {
            Ok(()) => validate_row(row_view(values@), schema_view(schema@)) is Ok,
            Err(m) => validate_row(row_view(values@), schema_view(schema@)) is Err && m@
                == violation_message(
                validate_row(row_view(values@), schema_view(schema@))->Err_0,
                schema_view(schema@),
            ),
        },
        schema.len() >= 1 && values.len() != schema.len() ==> r is Err,
{
    match validate(values, schema) {
        Ok(()) => Ok(()),
        Err(e) => Err(e.message(schema)),
    }
}

} // verus!
