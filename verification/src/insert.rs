//! Row insertion: from the literal list of a request to the record that is
//! appended to the table.

use vstd::prelude::*;
use crate::codec::{format_sql_values_for_storage, record_text, utc_timestamp_text};
use crate::query::{clause_view, load_schema, table_schema};
use crate::schema::{
    render_columns, render_schema, schema_view, ColumnDefinition, ColumnView, SchemaError,
    SchemaErrorView,
};
use crate::text::{append_chars, decimal, decimal_chars};
use crate::unique::{check_primary_key_duplicates, key_verdict, records_view, KeyError, KeyErrorView};
use crate::validate::{validate, validate_row, Violation, ViolationView};
use crate::values::{
    literal_text, parse_values, parse_values_text, push_literal, row_view, LiteralError,
    LiteralErrorView, SqlValue, SqlValueView,
};

verus! {

/// Why a row was not inserted.
#[derive(Debug, Clone)]
pub enum InsertError {
    /// The literal list is refused.
    Literal(LiteralError),
    /// The table's stored declaration is refused.
    Schema(SchemaError),
    /// The row violates the schema.
    Validation(Violation),
    /// The row violates the primary key.
    Key(KeyError),
    /// The moment of the insertion is beyond the calendar's range.
    Timestamp,
}

/// The mathematical value of an [`InsertError`].
pub enum InsertErrorView {
    Literal(LiteralErrorView),
    Schema(SchemaErrorView),
    Validation(ViolationView),
    Key(KeyErrorView),
    Timestamp,
}

impl View for InsertError {
    type V = InsertErrorView;

    open spec fn view(&self) -> InsertErrorView {
        match self {
            InsertError::Literal(e) => InsertErrorView::Literal(e@),
            InsertError::Schema(e) => InsertErrorView::Schema(e@),
            InsertError::Validation(e) => InsertErrorView::Validation(e@),
            InsertError::Key(e) => InsertErrorView::Key(e@),
            InsertError::Timestamp => InsertErrorView::Timestamp,
        }
    }
}

/// A row that was parsed and validated against the schema of its table.
#[derive(Debug)]
pub struct InsertPlan {
    pub values: Vec<SqlValue>,
    pub schema: Vec<ColumnDefinition>,
}

/// The first steps of an insertion: the values of the literal list, the
/// schema that the topic declares, and the validation of the one against
/// the other. The first step that fails decides the error.
pub open spec fn insert_plan(data: Seq<char>, topic: Option<Seq<char>>) -> Result<
    (Seq<SqlValueView>, Seq<ColumnView>),
    InsertErrorView,
> {
    match parse_values_text(data) {
        Err(e) => Err(InsertErrorView::Literal(e)),
        Ok(values) => match table_schema(topic) {
            Err(e) => Err(InsertErrorView::Schema(e)),
            Ok(schema) => match validate_row(values, schema) {
                Err(e) => Err(InsertErrorView::Validation(e)),
                Ok(()) => Ok((values, schema)),
            },
        },
    }
}

/// The last steps of an insertion: the primary-key check against the
/// records that were read, then the record of the row.
pub open spec fn insert_record(
    values: Seq<SqlValueView>,
    schema: Seq<ColumnView>,
    existing: Option<Seq<Seq<char>>>,
    seconds: i64,
) -> Result<Seq<char>, InsertErrorView> {
    match key_verdict(values, schema, existing) {
        Err(e) => Err(InsertErrorView::Key(e)),
        Ok(()) => match utc_timestamp_text(seconds) {
            None => Err(InsertErrorView::Timestamp),
            Some(t) => Ok(record_text(t, values, schema)),
        },
    }
}

/// The outcome of an insertion: the record to append, or the error of the
/// first step that fails.
pub open spec fn insert_outcome(
    data: Seq<char>,
    topic: Option<Seq<char>>,
    existing: Option<Seq<Seq<char>>>,
    seconds: i64,
) -> Result<Seq<char>, InsertErrorView> {
    match insert_plan(data, topic) {
        Err(e) => Err(e),
        Ok((values, schema)) => insert_record(values, schema, existing, seconds),
    }
}

/// The result of an insertion step that gives a record, in views.
pub open spec fn record_result_view(r: Result<String, InsertError>) -> Result<
    Seq<char>,
    InsertErrorView,
> {
    match r {
        Ok(record) => Ok(record@),
        Err(e) => Err(e@),
    }
}

/// Parses the literal list of a request and validates it against the
/// schema that the table's topic declares.
pub fn plan_insert(data: &str, topic: Option<&str>) -> (r: Result<InsertPlan, InsertError>)
    ensures
        match r {
            Ok(plan) => insert_plan(data@, clause_view(topic)) == Ok::<
                (Seq<SqlValueView>, Seq<ColumnView>),
                InsertErrorView,
            >((row_view(plan.values@), schema_view(plan.schema@))),
            Err(e) => insert_plan(data@, clause_view(topic)) == Err::<
                (Seq<SqlValueView>, Seq<ColumnView>),
                InsertErrorView,
            >(e@),
        },
{
    let values = match parse_values(data) {
        Ok(values) => values,
        Err(e) => {
            return Err(InsertError::Literal(e));
        },
    };
    let schema = match load_schema(topic) {
        Ok(schema) => schema,
        Err(e) => {
            return Err(InsertError::Schema(e));
        },
    };
    match validate(values.as_slice(), schema.as_slice()) {
        Ok(()) => Ok(InsertPlan { values: values, schema: schema }),
        Err(e) => Err(InsertError::Validation(e)),
    }
}

/// Checks a planned row against the records of its table and writes its
/// record.
///
/// `existing` is `None` where the records could not be read; `seconds` is
/// the moment of the insertion, counted from the Unix epoch.
pub fn complete_insert(plan: &InsertPlan, existing: Option<&Vec<String>>, seconds: i64) -> (r: Result<
    String,
    InsertError,
>)
    ensures
        record_result_view(r) == insert_record(
            row_view(plan.values@),
            schema_view(plan.schema@),
            records_view(existing),
            seconds,
        ),
        r matches Ok(record) ==> (crate::record_laws::reads_back(
            row_view(plan.values@),
            schema_view(plan.schema@),
        ) ==> crate::codec::decode_record(record@, schema_view(plan.schema@)) == Some(
            row_view(plan.values@),
        )),
{
    match check_primary_key_duplicates(plan.values.as_slice(), plan.schema.as_slice(), existing) {
        Ok(()) => {},
        Err(e) => {
            return Err(InsertError::Key(e));
        },
    }
    match format_sql_values_for_storage(plan.values.as_slice(), plan.schema.as_slice(), seconds) {
        Some(record) => Ok(record),
        None => Err(InsertError::Timestamp),
    }
}

/// Inserts a row: parses the literal list, loads the schema, validates the
/// row, checks the primary key and writes the record. Nothing is written
/// where a step fails.
pub fn insert_row(data: &str, topic: Option<&str>, existing: Option<&Vec<String>>, seconds: i64) -> (r:
    Result<String, InsertError>)
    ensures
        record_result_view(r) == insert_outcome(
            data@,
            clause_view(topic),
            records_view(existing),
            seconds,
        ),
{
    match plan_insert(data, topic) {
        Ok(plan) => complete_insert(&plan, existing, seconds),
        Err(e) => Err(e),
    }
}

// ---------------------------------------------------------------------------
// Confirmation texts
// ---------------------------------------------------------------------------

/// The text that shows one value to the user: its literal.
pub fn format_sql_value_for_display(value: &SqlValue) -> (r: String)
    ensures
        r@ == literal_text(value@),
{
    value.render()
}

/// The first `n` lines of the list that shows an inserted row: the column's
/// name, or `Column <i>` without a schema, and the literal of the value.
pub open spec fn display_lines(values: Seq<SqlValueView>, schema: Seq<ColumnView>, n: int) -> Seq<char>
    decreases n,
{
    if n <= 0 {
        Seq::empty()
    } else {
        let label = if schema.len() == 0 {
            "Column "@ + decimal(n as nat)
        } else {
            schema[n - 1].name
        };
        let line = "• **"@ + label + ":** "@ + literal_text(values[n - 1]);
        if n == 1 {
            line
        } else {
            display_lines(values, schema, n - 1) + "\n"@ + line
        }
    }
}

/// The number of values that the list shows: all without a schema, else as
/// many as have a column.
pub open spec fn display_count(values: Seq<SqlValueView>, schema: Seq<ColumnView>) -> int {
    if schema.len() == 0 || values.len() <= schema.len() {
        values.len() as int
    } else {
        schema.len() as int
    }
}

/// The list that shows an inserted row to the user.
pub fn format_sql_values_for_display(values: &[SqlValue], schema: &[ColumnDefinition]) -> (r: String)
    ensures
        r@ == display_lines(
            row_view(values@),
            schema_view(schema@),
            display_count(row_view(values@), schema_view(schema@)),
        ),
{
    let ghost vs = row_view(values@);
    let ghost cs = schema_view(schema@);
    let n = if schema.len() == 0 || values.len() <= schema.len() {
        values.len()
    } else {
        schema.len()
    };
    let mut m = String::new();
    let mut i: usize = 0;
    while i < n
        invariant
            i <= n <= values.len(),
            schema.len() == 0 || n <= schema.len(),
            vs == row_view(values@),
            cs == schema_view(schema@),
            m@ == display_lines(vs, cs, i as int),
        decreases n - i,
    {
        if i > 0 {
            m.append("\n");
        }
        let ghost label = if cs.len() == 0 {
            "Column "@ + decimal((i + 1) as nat)
        } else {
            cs[i as int].name
        };
        m.append("• **");
        if schema.len() == 0 {
            m.append("Column ");
            append_chars(&mut m, &decimal_chars((i + 1) as u64));
        } else {
            m.append(schema[i].name.as_str());
        }
        m.append(":** ");
        push_literal(&mut m, &values[i]);
        i += 1;
    }
    m
}

/// The text that shows a schema to the user: its canonical declaration, or
/// a note where there is none.
pub open spec fn schema_info(schema: Seq<ColumnView>) -> Seq<char> {
    if schema.len() == 0 {
        "No schema defined (flexible insertion allowed)"@
    } else {
        render_columns(schema)
    }
}

/// The text that shows a schema to the user.
pub fn format_schema_info(schema: &Vec<ColumnDefinition>) -> (r: String)
    ensures
        r@ == schema_info(schema_view(schema@)),
{
    if schema.len() == 0 {
        String::from_str("No schema defined (flexible insertion allowed)")
    } else {
        render_schema(schema)
    }
}

} // verus!
