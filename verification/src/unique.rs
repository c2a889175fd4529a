//! Primary-key uniqueness of a new row against the records of a table.

use vstd::prelude::*;
use crate::codec::{decode_record, extract_values_from_message};
use crate::schema::{schema_view, ColumnDefinition, ColumnView};
use crate::text::{join, push_joined, string_views};
use crate::values::{literal_text, row_view, SqlValue, SqlValueView};

verus! {

/// Why a row cannot be inserted under the primary key of its table.
#[derive(Debug, Clone)]
pub enum KeyError {
    /// The row has no value for a primary-key column.
    PrimaryKeyMissing,
    /// A stored row has the same primary key.
    PrimaryKeyViolation { columns: Vec<String>, values: Vec<SqlValue> },
}

/// The mathematical value of a [`KeyError`].
pub enum KeyErrorView {
    PrimaryKeyMissing,
    PrimaryKeyViolation { columns: Seq<Seq<char>>, values: Seq<SqlValueView> },
}

impl View for KeyError {
    type V = KeyErrorView;

    open spec fn view(&self) -> KeyErrorView {
        match self {
            KeyError::PrimaryKeyMissing => KeyErrorView::PrimaryKeyMissing,
            KeyError::PrimaryKeyViolation { columns, values } => KeyErrorView::PrimaryKeyViolation {
                columns: string_views(columns@),
                values: row_view(values@),
            },
        }
    }
}

/// Equality of two values: the same kind and the same content. Two
/// floating-point literals are equal where they are written alike.
pub fn sql_values_equal(a: &SqlValue, b: &SqlValue) -> (r: bool)
    ensures
        r == (a@ == b@),
{
    match (a, b) {
        (SqlValue::Integer(x), SqlValue::Integer(y)) => *x == *y,
        (SqlValue::Float(x), SqlValue::Float(y)) => {
            let r = *x == *y;
            r
        },
        (SqlValue::String(x), SqlValue::String(y)) => {
            let r = *x == *y;
            r
        },
        (SqlValue::Boolean(x), SqlValue::Boolean(y)) => *x == *y,
        (SqlValue::Null, SqlValue::Null) => true,
        _ => false,
    }
}

/// The schema declares a primary-key column.
pub open spec fn has_primary_key(schema: Seq<ColumnView>) -> bool {
    exists|i: int| 0 <= i < schema.len() && (#[trigger] schema[i]).primary_key
}

/// A primary-key column stands beyond the end of the row.
pub open spec fn key_missing(row: Seq<SqlValueView>, schema: Seq<ColumnView>) -> bool {
    exists|i: int| row.len() <= i < schema.len() && (#[trigger] schema[i]).primary_key
}

/// The names of the primary-key columns among the first `n` columns.
pub open spec fn key_names(schema: Seq<ColumnView>, n: int) -> Seq<Seq<char>>
    decreases n,
{
    if n <= 0 {
        Seq::empty()
    } else if schema[n - 1].primary_key {
        key_names(schema, n - 1).push(schema[n - 1].name)
    } else {
        key_names(schema, n - 1)
    }
}

/// The values of `row` in the primary-key columns among the first `n`
/// columns.
pub open spec fn key_values(row: Seq<SqlValueView>, schema: Seq<ColumnView>, n: int) -> Seq<
    SqlValueView,
>
    decreases n,
{
    if n <= 0 {
        Seq::empty()
    } else if schema[n - 1].primary_key {
        key_values(row, schema, n - 1).push(row[n - 1])
    } else {
        key_values(row, schema, n - 1)
    }
}

/// The two rows agree in every primary-key column that both have.
pub open spec fn same_key(a: Seq<SqlValueView>, b: Seq<SqlValueView>, schema: Seq<ColumnView>) -> bool {
    forall|i: int|
        0 <= i < schema.len() && i < a.len() && i < b.len() && (#[trigger] schema[i]).primary_key
            ==> a[i] == b[i]
}

/// The record holds a row with the primary key of `row`.
pub open spec fn conflicts(row: Seq<SqlValueView>, schema: Seq<ColumnView>, record: Seq<char>) -> bool {
    match decode_record(record, schema) {
        Some(stored) => same_key(row, stored, schema),
        None => false,
    }
}

/// The verdict on a new row.
///
/// A schema without a primary key accepts every row. A row that lacks a
/// primary-key value is refused. Where the records could not be read
/// (`None`) the row is accepted. Otherwise the row is refused exactly where
/// one of the records holds a row with the same primary key; a record that
/// holds no row is passed over.
pub open spec fn key_verdict(
    row: Seq<SqlValueView>,
    schema: Seq<ColumnView>,
    existing: Option<Seq<Seq<char>>>,
) -> Result<(), KeyErrorView> {
    if !has_primary_key(schema) {
        Ok(())
    } else if key_missing(row, schema) {
        Err(KeyErrorView::PrimaryKeyMissing)
    } else {
        match existing {
            None => Ok(()),
            Some(records) => if exists|k: int|
                0 <= k < records.len() && conflicts(row, schema, #[trigger] records[k]) {
                Err(
                    KeyErrorView::PrimaryKeyViolation {
                        columns: key_names(schema, schema.len() as int),
                        values: key_values(row, schema, schema.len() as int),
                    },
                )
            } else {
                Ok(())
            },
        }
    }
}

/// The result of the check, in views.
pub open spec fn key_result_view(r: Result<(), KeyError>) -> Result<(), KeyErrorView> {
    match r {
        Ok(()) => Ok(()),
        Err(e) => Err(e@),
    }
}

/// The view of the records that were read.
pub open spec fn records_view(existing: Option<&Vec<String>>) -> Option<Seq<Seq<char>>> {
    match existing {
        Some(records) => Some(string_views(records@)),
        None => None,
    }
}

fn rows_share_key(a: &[SqlValue], b: &Vec<SqlValue>, schema: &[ColumnDefinition]) -> (r: bool)
    ensures
        r == same_key(row_view(a@), row_view(b@), schema_view(schema@)),
{
    let ghost cs = schema_view(schema@);
    let mut i: usize = 0;
    while i < schema.len()
        invariant
            i <= schema.len(),
            cs == schema_view(schema@),
            forall|j: int|
                0 <= j < i && j < a.len() && j < b.len() && (#[trigger] cs[j]).primary_key
                    ==> a@[j]@ == b@[j]@,
        decreases schema.len() - i,
    {
        if schema[i].primary_key && i < a.len() && i < b.len() {
            if !sql_values_equal(&a[i], &b[i]) {
                assert(cs[i as int].primary_key);
                return false;
            }
        }
        i += 1;
    }
    assert forall|j: int|
        0 <= j < cs.len() && j < row_view(a@).len() && j < row_view(b@).len() && (
        #[trigger] cs[j]).primary_key implies row_view(a@)[j] == row_view(b@)[j] by {}
    true
}

/// Checks a new row against the most recent records of its table.
///
/// `existing` is `None` where the records could not be read: the check
/// then lets the row pass.
pub fn check_primary_key_duplicates(
    new_values: &[SqlValue],
    schema: &[ColumnDefinition],
    existing: Option<&Vec<String>>,
) -> (r: Result<(), KeyError>)
    ensures
        key_result_view(r) == key_verdict(
            row_view(new_values@),
            schema_view(schema@),
            records_view(existing),
        ),
{
    let ghost cs = schema_view(schema@);
    let ghost row = row_view(new_values@);
    let mut columns: Vec<String> = Vec::new();
    let mut values: Vec<SqlValue> = Vec::new();
    let mut missing = false;
    let mut i: usize = 0;
    while i < schema.len()
        invariant
            i <= schema.len(),
            cs == schema_view(schema@),
            row == row_view(new_values@),
            string_views(columns@) == key_names(cs, i as int),
            !missing ==> row_view(values@) == key_values(row, cs, i as int),
            missing == (exists|j: int| row.len() <= j < i && (#[trigger] cs[j]).primary_key),
            (columns.len() > 0) == (exists|j: int| 0 <= j < i && (#[trigger] cs[j]).primary_key),
        decreases schema.len() - i,
    {
        if schema[i].primary_key {
            let name = schema[i].name.clone();
            columns.push(name);
            if i < new_values.len() {
                let v = new_values[i].duplicate();
                values.push(v);
            } else {
                missing = true;
            }
        }
        i += 1;
    }
    if columns.len() == 0 {
        return Ok(());
    }
    if missing {
        return Err(KeyError::PrimaryKeyMissing);
    }
    let records = match existing {
        Some(records) => records,
        None => {
            return Ok(());
        },
    };
    let ghost rs = string_views(records@);
    let mut k: usize = 0;
    while k < records.len()
        invariant
            k <= records.len(),
            cs == schema_view(schema@),
            row == row_view(new_values@),
            rs == string_views(records@),
            records_view(existing) == Some(rs),
            has_primary_key(cs),
            !key_missing(row, cs),
            string_views(columns@) == key_names(cs, cs.len() as int),
            row_view(values@) == key_values(row, cs, cs.len() as int),
            forall|j: int| 0 <= j < k ==> !conflicts(row, cs, #[trigger] rs[j]),
        decreases records.len() - k,
    {
        match extract_values_from_message(records[k].as_str(), schema) {
            Some(stored) => {
                if rows_share_key(new_values, &stored, schema) {
                    assert(conflicts(row, cs, rs[k as int]));
                    return Err(KeyError::PrimaryKeyViolation { columns: columns, values: values });
                }
            },
            None => {},
        }
        k += 1;
    }
    Ok(())
}

/// The text that explains a refused row.
pub open spec fn key_message(e: KeyErrorView) -> Seq<char> {
    match e {
        KeyErrorView::PrimaryKeyMissing => {
            "Primary key value is required but not provided in the data."@
        },
        KeyErrorView::PrimaryKeyViolation { columns, values } => {
            "**Duplicate primary key detected!**\n\nPrimary key column(s): **"@ + join(
                columns,
                ", "@,
            ) + "**\nValue(s): **"@ + join(literal_texts(values), ", "@)
                + "**\n\n💡 **Tip:** Primary key values must be unique across all rows."@
        },
    }
}

/// The literals of the values of a row.
pub open spec fn literal_texts(values: Seq<SqlValueView>) -> Seq<Seq<char>> {
    Seq::new(values.len(), |i: int| literal_text(values[i]))
}

/// The literals of the values of a row.
pub fn render_values(values: &Vec<SqlValue>) -> (r: Vec<String>)
    ensures
        string_views(r@) == literal_texts(row_view(values@)),
{
    let mut r: Vec<String> = Vec::new();
    let mut i: usize = 0;
    while i < values.len()
        invariant
            i <= values.len(),
            r.len() == i,
            forall|j: int| 0 <= j < i ==> r@[j]@ == literal_text(values@[j]@),
        decreases values.len() - i,
    {
        r.push(values[i].render());
        i += 1;
    }
    r
}

impl KeyError {
    /// The text that explains the error.
    pub fn message(&self) -> (r: String)
        ensures
            r@ == key_message(self@),
    {
        match self {
            KeyError::PrimaryKeyMissing => String::from_str(
                "Primary key value is required but not provided in the data.",
            ),
            KeyError::PrimaryKeyViolation { columns, values } => {
                let mut m = String::from_str(
                    "**Duplicate primary key detected!**\n\nPrimary key column(s): **",
                );
                push_joined(&mut m, columns, ", ");
                m.append("**\nValue(s): **");
                let literals = render_values(values);
                push_joined(&mut m, &literals, ", ");
                m.append("**\n\n💡 **Tip:** Primary key values must be unique across all rows.");
                m
            },
        }
    }
}

} // verus!
