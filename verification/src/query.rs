//! Row selection: the column list of a query, projection, `DISTINCT`, and
//! the result of a `SELECT` over the records of a table.

use vstd::prelude::*;
use crate::codec::{decode_record, extract_values_from_message};
use crate::filter::{column_index, eval_where, evaluate_where_condition, find_column};
use crate::schema::{
    parse_schema_from_topic, schema_of_topic, schema_view, ColumnDefinition, ColumnView, SchemaError,
    SchemaErrorView,
};
use crate::text::{
    chars_of, split_on, split_on_char, string_of, string_views, trim, trim_vec, views,
};
use crate::unique::{literal_texts, render_values, sql_values_equal};
use crate::values::{row_view, SqlValue, SqlValueView};

verus! {

/// The greatest number of rows that a result shows.
pub const DISPLAY_LIMIT: usize = 20;

// ---------------------------------------------------------------------------
// The column list
// ---------------------------------------------------------------------------

/// Why a column list was refused.
#[derive(Debug, Clone)]
pub enum SelectionError {
    /// `*` was asked of a table without a schema.
    SchemaRequired,
    /// The list names no column.
    NoColumns,
    /// The list names a column that the schema has not.
    UnknownColumn { column: String },
}

/// The mathematical value of a [`SelectionError`].
pub enum SelectionErrorView {
    SchemaRequired,
    NoColumns,
    UnknownColumn { column: Seq<char> },
}

impl View for SelectionError {
    type V = SelectionErrorView;

    open spec fn view(&self) -> SelectionErrorView {
        match self {
            SelectionError::SchemaRequired => SelectionErrorView::SchemaRequired,
            SelectionError::NoColumns => SelectionErrorView::NoColumns,
            SelectionError::UnknownColumn { column } => SelectionErrorView::UnknownColumn {
                column: column@,
            },
        }
    }
}

/// The names of the columns of a schema, in order.
pub open spec fn schema_names(schema: Seq<ColumnView>) -> Seq<Seq<char>> {
    Seq::new(schema.len(), |i: int| schema[i].name)
}

/// The trimmed pieces that are not empty, in order.
pub open spec fn trimmed_nonempty(pieces: Seq<Seq<char>>) -> Seq<Seq<char>>
    decreases pieces.len(),
{
    if pieces.len() == 0 {
        Seq::empty()
    } else {
        let rest = trimmed_nonempty(pieces.drop_last());
        let t = trim(pieces.last());
        if t.len() == 0 {
            rest
        } else {
            rest.push(t)
        }
    }
}

/// The first of the first `n` names that the schema has not.
pub open spec fn first_unknown(names: Seq<Seq<char>>, schema: Seq<ColumnView>, n: int) -> Option<
    Seq<char>,
>
    decreases n,
{
    if n <= 0 {
        None
    } else {
        match first_unknown(names, schema, n - 1) {
            Some(name) => Some(name),
            None => if column_index(schema, names[n - 1]) < 0 {
                Some(names[n - 1])
            } else {
                None
            },
        }
    }
}

/// The columns that a column list selects: all of the schema for `*`, else
/// the names of the list, which a schema, where there is one, must know.
pub open spec fn selection(text: Seq<char>, schema: Seq<ColumnView>) -> Result<
    Seq<Seq<char>>,
    SelectionErrorView,
> {
    let t = trim(text);
    if t == seq!['*'] {
        if schema.len() == 0 {
            Err(SelectionErrorView::SchemaRequired)
        } else {
            Ok(schema_names(schema))
        }
    } else {
        let names = trimmed_nonempty(split_on(t, ','));
        if names.len() == 0 {
            Err(SelectionErrorView::NoColumns)
        } else if schema.len() > 0 && first_unknown(names, schema, names.len() as int) is Some {
            Err(
                SelectionErrorView::UnknownColumn {
                    column: first_unknown(names, schema, names.len() as int)->0,
                },
            )
        } else {
            Ok(names)
        }
    }
}

/// The result of [`parse_column_selection`], in views.
pub open spec fn selection_result_view(r: Result<Vec<String>, SelectionError>) -> Result<
    Seq<Seq<char>>,
    SelectionErrorView,
> {
    match r {
        Ok(names) => Ok(string_views(names@)),
        Err(e) => Err(e@),
    }
}

/// Reads the column list of a query against the schema of its table.
pub fn parse_column_selection(columns: &str, schema: &[ColumnDefinition]) -> (r: Result<
    Vec<String>,
    SelectionError,
>)
    ensures
        selection_result_view(r) == selection(columns@, schema_view(schema@)),
{
    let ghost cs = schema_view(schema@);
    let t = trim_vec(&chars_of(columns));
    if t.len() == 1 && t[0] == '*' {
        assert(t@ =~= seq!['*']);
        if schema.len() == 0 {
            return Err(SelectionError::SchemaRequired);
        }
        let mut names: Vec<String> = Vec::new();
        let mut i: usize = 0;
        while i < schema.len()
            invariant
                i <= schema.len(),
                names.len() == i,
                forall|j: int| 0 <= j < i ==> names@[j]@ == schema@[j].name@,
            decreases schema.len() - i,
        {
            names.push(schema[i].name.clone());
            i += 1;
        }
        assert(string_views(names@) =~= schema_names(cs));
        return Ok(names);
    }
    let pieces = split_on_char(&t, ',');
    let ghost ps = views(pieces@);
    let mut names: Vec<Vec<char>> = Vec::new();
    let mut i: usize = 0;
    while i < pieces.len()
        invariant
            i <= pieces.len(),
            ps == views(pieces@),
            views(names@) == trimmed_nonempty(ps.take(i as int)),
        decreases pieces.len() - i,
    {
        let ghost done = ps.take(i + 1);
        assert(done.drop_last() =~= ps.take(i as int));
        let name = trim_vec(&pieces[i]);
        if name.len() > 0 {
            names.push(name);
        }
        i += 1;
    }
    assert(ps.take(pieces.len() as int) =~= ps);
    if names.len() == 0 {
        return Err(SelectionError::NoColumns);
    }
    let ghost ns = views(names@);
    let mut result: Vec<String> = Vec::new();
    let mut k: usize = 0;
    while k < names.len()
        invariant
            k <= names.len(),
            ns == views(names@),
            cs == schema_view(schema@),
            ns == trimmed_nonempty(split_on(trim(columns@), ',')),
            trim(columns@) != seq!['*'],
            ns.len() > 0,
            schema.len() > 0 ==> first_unknown(ns, cs, k as int) is None,
            result.len() == k,
            forall|j: int| 0 <= j < k ==> result@[j]@ == ns[j],
        decreases names.len() - k,
    {
        if schema.len() > 0 {
            if find_column(schema, &names[k]).is_none() {
                proof {
                    lemma_first_unknown_stays(ns, cs, k + 1, ns.len() as int);
                }
                return Err(SelectionError::UnknownColumn { column: string_of(&names[k]) });
            }
        }
        result.push(string_of(&names[k]));
        k += 1;
    }
    assert(string_views(result@) =~= ns);
    Ok(result)
}

/// The first unknown name among the first `k` names is the first among any
/// more.
pub proof fn lemma_first_unknown_stays(names: Seq<Seq<char>>, schema: Seq<ColumnView>, k: int, n: int)
    requires
        0 <= k <= n,
        first_unknown(names, schema, k) is Some,
    ensures
        first_unknown(names, schema, n) == first_unknown(names, schema, k),
    decreases n - k,
{
    if k < n {
        lemma_first_unknown_stays(names, schema, k, n - 1);
    }
}

// ---------------------------------------------------------------------------
// Projection
// ---------------------------------------------------------------------------

/// The values of `row` in the first `n` selected columns that the schema
/// knows; `NULL` where the row is too short for a column.
pub open spec fn project_known(
    row: Seq<SqlValueView>,
    schema: Seq<ColumnView>,
    selected: Seq<Seq<char>>,
    n: int,
) -> Seq<SqlValueView>
    decreases n,
{
    if n <= 0 {
        Seq::empty()
    } else {
        let rest = project_known(row, schema, selected, n - 1);
        let index = column_index(schema, selected[n - 1]);
        if index < 0 {
            rest
        } else if index < row.len() {
            rest.push(row[index])
        } else {
            rest.push(SqlValueView::Null)
        }
    }
}

/// The projection of a row on the selected columns. Without a schema it is
/// the first values of the row, as many as columns were selected.
pub open spec fn project(row: Seq<SqlValueView>, schema: Seq<ColumnView>, selected: Seq<Seq<char>>) -> Seq<
    SqlValueView,
> {
    if schema.len() == 0 {
        if selected.len() <= row.len() {
            row.take(selected.len() as int)
        } else {
            row
        }
    } else {
        project_known(row, schema, selected, selected.len() as int)
    }
}

/// Projects a row on the selected columns.
pub fn select_columns(row_data: &[SqlValue], schema: &[ColumnDefinition], selected_columns: &Vec<String>) -> (r:
    Vec<SqlValue>)
    ensures
        row_view(r@) == project(
            row_view(row_data@),
            schema_view(schema@),
            string_views(selected_columns@),
        ),
{
    let ghost row = row_view(row_data@);
    let ghost cs = schema_view(schema@);
    let ghost sel = string_views(selected_columns@);
    let mut r: Vec<SqlValue> = Vec::new();
    if schema.len() == 0 {
        let n = if selected_columns.len() <= row_data.len() {
            selected_columns.len()
        } else {
            row_data.len()
        };
        let mut i: usize = 0;
        while i < n
            invariant
                i <= n <= row_data.len(),
                r.len() == i,
                forall|j: int| 0 <= j < i ==> r@[j]@ == row_data@[j]@,
            decreases n - i,
        {
            r.push(row_data[i].duplicate());
            i += 1;
        }
        return r;
    }
    let mut k: usize = 0;
    while k < selected_columns.len()
        invariant
            k <= selected_columns.len(),
            row == row_view(row_data@),
            cs == schema_view(schema@),
            sel == string_views(selected_columns@),
            row_view(r@) == project_known(row, cs, sel, k as int),
        decreases selected_columns.len() - k,
    {
        let name = chars_of(selected_columns[k].as_str());
        match find_column(schema, &name) {
            Some(index) => {
                let v = if index < row_data.len() {
                    row_data[index].duplicate()
                } else {
                    SqlValue::Null
                };
                r.push(v);
            },
            None => {},
        }
        k += 1;
    }
    r
}

// ---------------------------------------------------------------------------
// DISTINCT
// ---------------------------------------------------------------------------

/// The views of the rows of a table, in order.
pub open spec fn rows_view(rows: Seq<Vec<SqlValue>>) -> Seq<Seq<SqlValueView>> {
    Seq::new(rows.len(), |i: int| row_view(rows[i]@))
}


/// The rows without the repetitions: a row stays where no equal row stands
/// before it.
pub open spec fn distinct_rows(rows: Seq<Seq<SqlValueView>>) -> Seq<Seq<SqlValueView>>
    decreases rows.len(),
{
    if rows.len() == 0 {
        Seq::empty()
    } else {
        let rest = distinct_rows(rows.drop_last());
        if rows.drop_last().contains(rows.last()) {
            rest
        } else {
            rest.push(rows.last())
        }
    }
}

fn rows_equal(a: &Vec<SqlValue>, b: &Vec<SqlValue>) -> (r: bool)
    ensures
        r == (row_view(a@) == row_view(b@)),
{
    if a.len() != b.len() {
        assert(row_view(a@).len() != row_view(b@).len());
        return false;
    }
    let mut i: usize = 0;
    while i < a.len()
        invariant
            i <= a.len(),
            a.len() == b.len(),
            forall|j: int| 0 <= j < i ==> a@[j]@ == b@[j]@,
        decreases a.len() - i,
    {
        if !sql_values_equal(&a[i], &b[i]) {
            assert(row_view(a@)[i as int] != row_view(b@)[i as int]);
            return false;
        }
        i += 1;
    }
    assert(row_view(a@) =~= row_view(b@));
    true
}

/// A copy of a row with the same view.
fn copy_row(row: &Vec<SqlValue>) -> (r: Vec<SqlValue>)
    ensures
        row_view(r@) == row_view(row@),
{
    crate::values::duplicate_row(row)
}

/// Drops the rows that repeat an earlier row.
pub fn apply_distinct(rows: Vec<Vec<SqlValue>>) -> (r: Vec<Vec<SqlValue>>)
    ensures
        rows_view(r@) == distinct_rows(rows_view(rows@)),
{
    let ghost all = rows_view(rows@);
    let mut out: Vec<Vec<SqlValue>> = Vec::new();
    let mut i: usize = 0;
    while i < rows.len()
        invariant
            i <= rows.len(),
            all == rows_view(rows@),
            rows_view(out@) == distinct_rows(all.take(i as int)),
        decreases rows.len() - i,
    {
        let ghost done = all.take(i + 1);
        assert(done.drop_last() =~= all.take(i as int));
        let mut seen = false;
        let mut j: usize = 0;
        while j < i && !seen
            invariant
                j <= i < rows.len(),
                all == rows_view(rows@),
                seen ==> all.take(i as int).contains(all[i as int]),
                !seen ==> forall|k: int| 0 <= k < j ==> all[k] != all[i as int],
            decreases i - j,
        {
            if rows_equal(&rows[j], &rows[i]) {
                assert(all.take(i as int)[j as int] == all[i as int]);
                seen = true;
            }
            j += 1;
        }
        proof {
            if !seen {
                assert(!all.take(i as int).contains(all[i as int])) by {
                    if all.take(i as int).contains(all[i as int]) {
                        let k = choose|k: int|
                            0 <= k < all.take(i as int).len() && all.take(i as int)[k] == all[i as int];
                    }
                }
            }
        }
        if !seen {
            let row = copy_row(&rows[i]);
            out.push(row);
        }
        i += 1;
    }
    assert(all.take(rows.len() as int) =~= all);
    out
}

// ---------------------------------------------------------------------------
// SELECT
// ---------------------------------------------------------------------------

/// The view of an optional string slice.
pub open spec fn clause_view(clause: Option<&str>) -> Option<Seq<char>> {
    match clause {
        Some(c) => Some(c@),
        None => None,
    }
}

/// The row passes the filter; every row passes where there is none.
pub open spec fn passes(row: Seq<SqlValueView>, schema: Seq<ColumnView>, clause: Option<Seq<char>>) -> bool {
    match clause {
        Some(c) => eval_where(row, schema, c),
        None => true,
    }
}

/// The projections of the rows that the first `n` records hold and that
/// pass the filter, in the order of the records. A record that holds no
/// row is passed over.
pub open spec fn matching_rows(
    records: Seq<Seq<char>>,
    schema: Seq<ColumnView>,
    selected: Seq<Seq<char>>,
    clause: Option<Seq<char>>,
    n: int,
) -> Seq<Seq<SqlValueView>>
    decreases n,
{
    if n <= 0 {
        Seq::empty()
    } else {
        let rest = matching_rows(records, schema, selected, clause, n - 1);
        match decode_record(records[n - 1], schema) {
            Some(row) => if passes(row, schema, clause) {
                rest.push(project(row, schema, selected))
            } else {
                rest
            },
            None => rest,
        }
    }
}

/// The rows of a query over `records`: the matching rows, without
/// repetitions where `distinct` is set.
pub open spec fn query_rows(
    records: Seq<Seq<char>>,
    schema: Seq<ColumnView>,
    selected: Seq<Seq<char>>,
    clause: Option<Seq<char>>,
    distinct: bool,
) -> Seq<Seq<SqlValueView>> {
    let rows = matching_rows(records, schema, selected, clause, records.len() as int);
    if distinct {
        distinct_rows(rows)
    } else {
        rows
    }
}

/// Reads, filters and projects the rows of a table.
///
/// `records` holds the records of the table from the oldest to the newest.
pub fn select_rows(
    records: &Vec<String>,
    schema: &[ColumnDefinition],
    selected_columns: &Vec<String>,
    where_clause: Option<&str>,
    distinct: bool,
) -> (r: Vec<Vec<SqlValue>>)
    ensures
        rows_view(r@) == query_rows(
            string_views(records@),
            schema_view(schema@),
            string_views(selected_columns@),
            clause_view(where_clause),
            distinct,
        ),
{
    let ghost rs = string_views(records@);
    let ghost cs = schema_view(schema@);
    let ghost sel = string_views(selected_columns@);
    let ghost clause = clause_view(where_clause);
    let mut rows: Vec<Vec<SqlValue>> = Vec::new();
    let mut i: usize = 0;
    while i < records.len()
        invariant
            i <= records.len(),
            rs == string_views(records@),
            cs == schema_view(schema@),
            sel == string_views(selected_columns@),
            clause == clause_view(where_clause),
            rows_view(rows@) == matching_rows(rs, cs, sel, clause, i as int),
        decreases records.len() - i,
    {
        match extract_values_from_message(records[i].as_str(), schema) {
            Some(row) => {
                let keep = match where_clause {
                    Some(c) => evaluate_where_condition(row.as_slice(), schema, c),
                    None => true,
                };
                if keep {
                    let projected = select_columns(row.as_slice(), schema, selected_columns);
                    rows.push(projected);
                }
            },
            None => {},
        }
        i += 1;
    }
    if distinct {
        apply_distinct(rows)
    } else {
        rows
    }
}

/// The result of a `SELECT`: the column headers, the cells of the rows that
/// are shown, and the number of rows that matched.
#[derive(Debug, Clone)]
pub struct SelectResult {
    pub columns: Vec<String>,
    pub rows: Vec<Vec<String>>,
    pub distinct: bool,
    pub filter: Option<String>,
    pub total_rows: usize,
}

/// The cells of a table of rows: the literal of each value.
pub open spec fn cells_of(rows: Seq<Seq<SqlValueView>>) -> Seq<Seq<Seq<char>>> {
    Seq::new(rows.len(), |i: int| literal_texts(rows[i]))
}

/// The views of the cells of a result.
pub open spec fn cells_view(rows: Seq<Vec<String>>) -> Seq<Seq<Seq<char>>> {
    Seq::new(rows.len(), |i: int| string_views(rows[i]@))
}

/// The first rows of a table, as many as a result shows.
pub open spec fn shown(rows: Seq<Seq<SqlValueView>>) -> Seq<Seq<SqlValueView>> {
    if rows.len() <= DISPLAY_LIMIT {
        rows
    } else {
        rows.take(DISPLAY_LIMIT as int)
    }
}

/// Why a `SELECT` was refused before any record was read.
#[derive(Debug, Clone)]
pub enum SelectError {
    /// The table's stored declaration is refused.
    Schema(SchemaError),
    /// The column list is refused.
    Selection(SelectionError),
}

/// The mathematical value of a [`SelectError`].
pub enum SelectErrorView {
    Schema(SchemaErrorView),
    Selection(SelectionErrorView),
}

impl View for SelectError {
    type V = SelectErrorView;

    open spec fn view(&self) -> SelectErrorView {
        match self {
            SelectError::Schema(e) => SelectErrorView::Schema(e@),
            SelectError::Selection(e) => SelectErrorView::Selection(e@),
        }
    }
}

/// What a query asks for, once its table is known: the schema of the table
/// and the names of the selected columns.
#[derive(Debug)]
pub struct SelectPlan {
    pub schema: Vec<ColumnDefinition>,
    pub columns: Vec<String>,
}

/// The schema that a topic declares; no column where there is no topic.
pub open spec fn table_schema(topic: Option<Seq<char>>) -> Result<Seq<ColumnView>, SchemaErrorView> {
    match topic {
        Some(t) => schema_of_topic(t),
        None => Ok(Seq::empty()),
    }
}

/// The plan of a query: the schema that the table's topic declares, and
/// the selection of the column list against it.
pub open spec fn select_plan(columns: Seq<char>, topic: Option<Seq<char>>) -> Result<
    (Seq<ColumnView>, Seq<Seq<char>>),
    SelectErrorView,
> {
    match table_schema(topic) {
        Err(e) => Err(SelectErrorView::Schema(e)),
        Ok(schema) => match selection(columns, schema) {
            Err(e) => Err(SelectErrorView::Selection(e)),
            Ok(names) => Ok((schema, names)),
        },
    }
}

/// Reads the schema of a table from its topic; a table without a topic has
/// no schema.
pub fn load_schema(topic: Option<&str>) -> (r: Result<Vec<ColumnDefinition>, SchemaError>)
    ensures
        crate::schema::schema_result_view(r) == table_schema(clause_view(topic)),
{
    match topic {
        Some(t) => parse_schema_from_topic(t),
        None => {
            let cols: Vec<ColumnDefinition> = Vec::new();
            assert(schema_view(cols@) =~= Seq::<ColumnView>::empty());
            Ok(cols)
        },
    }
}

/// Plans a query from its column list and the topic of its table.
pub fn plan_select(columns: &str, topic: Option<&str>) -> (r: Result<SelectPlan, SelectError>)
    ensures
        match r {
            Ok(plan) => select_plan(columns@, clause_view(topic)) == Ok::<
                (Seq<ColumnView>, Seq<Seq<char>>),
                SelectErrorView,
            >((schema_view(plan.schema@), string_views(plan.columns@))),
            Err(e) => select_plan(columns@, clause_view(topic)) == Err::<
                (Seq<ColumnView>, Seq<Seq<char>>),
                SelectErrorView,
            >(e@),
        },
{
    let schema = match load_schema(topic) {
        Ok(schema) => schema,
        Err(e) => {
            return Err(SelectError::Schema(e));
        },
    };
    match parse_column_selection(columns, schema.as_slice()) {
        Ok(names) => Ok(SelectPlan { schema: schema, columns: names }),
        Err(e) => Err(SelectError::Selection(e)),
    }
}

/// Runs a planned query over the records of its table, given from the
/// oldest to the newest.
///
/// The result counts every row that matched and shows the first
/// [`DISPLAY_LIMIT`] of them.
pub fn run_select(plan: &SelectPlan, records: &Vec<String>, distinct: bool, where_clause: Option<&str>) -> (r:
    SelectResult)
    ensures
        ({
            let rows = query_rows(
                string_views(records@),
                schema_view(plan.schema@),
                string_views(plan.columns@),
                clause_view(where_clause),
                distinct,
            );
            &&& r.total_rows == rows.len()
            &&& cells_view(r.rows@) == cells_of(shown(rows))
            &&& string_views(r.columns@) == string_views(plan.columns@)
            &&& r.distinct == distinct
            &&& crate::codec::option_text(r.filter) == clause_view(where_clause)
        }),
{
    let rows = select_rows(records, plan.schema.as_slice(), &plan.columns, where_clause, distinct);
    let ghost all = rows_view(rows@);
    let n = if rows.len() <= DISPLAY_LIMIT {
        rows.len()
    } else {
        DISPLAY_LIMIT
    };
    let mut cells: Vec<Vec<String>> = Vec::new();
    let mut i: usize = 0;
    while i < n
        invariant
            i <= n <= rows.len(),
            all == rows_view(rows@),
            cells.len() == i,
            forall|j: int| 0 <= j < i ==> string_views(cells@[j]@) == literal_texts(all[j]),
        decreases n - i,
    {
        cells.push(render_values(&rows[i]));
        i += 1;
    }
    let mut columns: Vec<String> = Vec::new();
    let mut k: usize = 0;
    while k < plan.columns.len()
        invariant
            k <= plan.columns.len(),
            columns.len() == k,
            forall|j: int| 0 <= j < k ==> columns@[j]@ == plan.columns@[j]@,
        decreases plan.columns.len() - k,
    {
        columns.push(plan.columns[k].clone());
        k += 1;
    }
    let filter = match where_clause {
        Some(c) => Some(String::from_str(c)),
        None => None,
    };
    SelectResult {
        columns: columns,
        rows: cells,
        distinct: distinct,
        filter: filter,
        total_rows: rows.len(),
    }
}

} // verus!
