//! `WHERE` filters: equality conditions joined by ` AND ` and ` OR `, with
//! parentheses.
//!
//! ```text
//! Or        := And (" OR " And)*
//! And       := Primary (" AND " Primary)*
//! Primary   := "(" Or ")" | Condition
//! Condition := column "=" literal
//! ```

use vstd::prelude::*;
use crate::schema::{schema_view, ColumnDefinition, ColumnView};
use crate::text::{
    chars_of, find_char, index_of, starts_with, string_of, subvec, trim, trim_vec, vec_eq,
    vec_matches_at, views,
};
use crate::values::{literal_text, row_view, SqlValue, SqlValueView};

verus! {

// ---------------------------------------------------------------------------
// Splitting at the top level
// ---------------------------------------------------------------------------

/// The nesting depth behind the character `c`, where it was `depth` before.
pub open spec fn depth_after(depth: int, c: char) -> int {
    if c == '(' {
        depth + 1
    } else if c == ')' {
        depth - 1
    } else {
        depth
    }
}

/// The index of the first occurrence of `op` in `s` that starts outside
/// all parentheses, where the depth at the start of `s` is `depth`; -1
/// where there is none.
pub open spec fn first_top_level(s: Seq<char>, op: Seq<char>, depth: int) -> int
    decreases s.len(),
{
    if s.len() == 0 {
        -1
    } else if s[0] != '(' && s[0] != ')' && depth == 0 && starts_with(s, op) {
        0
    } else {
        let r = first_top_level(s.drop_first(), op, depth_after(depth, s[0]));
        if r < 0 {
            -1
        } else {
            r + 1
        }
    }
}

/// The first top-level occurrence, where there is one, lies wholly within the text.
pub proof fn lemma_first_top_level(s: Seq<char>, op: Seq<char>, depth: int)
    ensures
        -1 <= first_top_level(s, op, depth) < s.len() || (s.len() == 0 && first_top_level(
            s,
            op,
            depth,
        ) == -1),
        first_top_level(s, op, depth) >= 0 ==> first_top_level(s, op, depth) + op.len() <= s.len(),
    decreases s.len(),
{
    if s.len() > 0 && !(s[0] != '(' && s[0] != ')' && depth == 0 && starts_with(s, op)) {
        lemma_first_top_level(s.drop_first(), op, depth_after(depth, s[0]));
    }
}

/// `p` where it is not blank.
pub open spec fn keep_nonblank(p: Seq<char>) -> Seq<Seq<char>> {
    if trim(p).len() == 0 {
        Seq::empty()
    } else {
        seq![p]
    }
}

/// The pieces of `s` between the top-level occurrences of `op`, taken from
/// the left, without the blank pieces.
pub open spec fn top_level_parts(s: Seq<char>, op: Seq<char>) -> Seq<Seq<char>>
    decreases s.len(),
{
    let k = first_top_level(s, op, 0);
    if op.len() == 0 || k < 0 || k + op.len() > s.len() {
        keep_nonblank(s)
    } else {
        keep_nonblank(s.take(k)) + top_level_parts(s.skip(k + op.len()), op)
    }
}

/// The operands of `op` in `s`: its top-level pieces, or `s` itself where
/// every piece is blank.
pub open spec fn operands(s: Seq<char>, op: Seq<char>) -> Seq<Seq<char>> {
    let parts = top_level_parts(s, op);
    if parts.len() == 0 {
        seq![s]
    } else {
        parts
    }
}

/// Trimming makes no text longer.
pub proof fn lemma_trim_len(s: Seq<char>)
    ensures
        trim(s).len() <= s.len(),
{
    crate::text::lemma_trim_start(s);
    lemma_trim_end_len(crate::text::trim_start(s));
}

/// Dropping trailing whitespace makes no text longer.
pub proof fn lemma_trim_end_len(s: Seq<char>)
    ensures
        crate::text::trim_end(s).len() <= s.len(),
    decreases s.len(),
{
    if s.len() > 0 && crate::text::is_whitespace(s.last()) {
        lemma_trim_end_len(s.drop_last());
    }
}

/// No operand is longer than the expression.
pub proof fn lemma_operands_len(s: Seq<char>, op: Seq<char>)
    ensures
        operands(s, op).len() >= 1,
        forall|k: int| 0 <= k < operands(s, op).len() ==> (#[trigger] operands(s, op)[k]).len() <= s.len(),
        forall|k: int|
            0 <= k < operands(s, op).len() ==> trim(#[trigger] operands(s, op)[k]).len() <= s.len(),
{
    lemma_parts_len(s, op);
    assert forall|k: int| 0 <= k < operands(s, op).len() implies trim(
        #[trigger] operands(s, op)[k],
    ).len() <= s.len() by {
        lemma_trim_len(operands(s, op)[k]);
    }
}

/// No top-level piece is longer than the expression.
pub proof fn lemma_parts_len(s: Seq<char>, op: Seq<char>)
    ensures
        forall|k: int|
            0 <= k < top_level_parts(s, op).len() ==> (#[trigger] top_level_parts(s, op)[k]).len()
                <= s.len(),
    decreases s.len(),
{
    let k = first_top_level(s, op, 0);
    if !(op.len() == 0 || k < 0 || k + op.len() > s.len()) {
        let tail = top_level_parts(s.skip(k + op.len()), op);
        lemma_parts_len(s.skip(k + op.len()), op);
        assert forall|j: int| 0 <= j < top_level_parts(s, op).len() implies (
        #[trigger] top_level_parts(s, op)[j]).len() <= s.len() by {}
    }
}

/// Finds the first top-level occurrence of `op` in `s[start..]`.
fn find_top_level(s: &Vec<char>, op: &Vec<char>, start: usize) -> (r: Option<usize>)
    requires
        start <= s.len(),
    ensures
        match r {
            Some(i) => start <= i && i + op.len() <= s.len() && first_top_level(
                s@.skip(start as int),
                op@,
                0,
            ) == i - start,
            None => first_top_level(s@.skip(start as int), op@, 0) == -1,
        },
{
    let mut i: usize = start;
    let mut depth: i128 = 0;
    let ghost whole = first_top_level(s@.skip(start as int), op@, 0);
    while i < s.len()
        invariant
            start <= i <= s.len(),
            -(i as int) <= depth <= i as int,
            whole == first_top_level(s@.skip(start as int), op@, 0),
            whole == ({
                let r = first_top_level(s@.skip(i as int), op@, depth as int);
                if r < 0 {
                    -1
                } else {
                    r + (i - start)
                }
            }),
        decreases s.len() - i,
    {
        let ghost rest = s@.skip(i as int);
        let c = s[i];
        assert(rest.drop_first() =~= s@.skip(i + 1));
        if c == '(' {
            depth = depth + 1;
        } else if c == ')' {
            depth = depth - 1;
        } else if depth == 0 {
            let found = vec_matches_at(s, op, i);
            proof {
                if op.len() <= rest.len() {
                    assert(rest.take(op.len() as int) =~= s@.subrange(i as int, i + op.len()));
                }
            }
            if found {
                return Some(i);
            }
        }
        i += 1;
    }
    None
}

fn split_operands(s: &Vec<char>, op: &Vec<char>) -> (r: Vec<Vec<char>>)
    ensures
        views(r@) == operands(s@, op@),
{
    let mut parts: Vec<Vec<char>> = Vec::new();
    if op.len() > 0 {
        let mut start: usize = 0;
        assert(s@.skip(0) =~= s@);
        let mut done = false;
        while !done
            invariant
                start <= s.len(),
                op.len() > 0,
                !done ==> top_level_parts(s@, op@) == views(parts@) + top_level_parts(
                    s@.skip(start as int),
                    op@,
                ),
                done ==> top_level_parts(s@, op@) == views(parts@),
            decreases s.len() - start + (if done { 0int } else { 1int }),
        {
            let ghost rest = s@.skip(start as int);
            match find_top_level(s, op, start) {
                Some(i) => {
                    let piece = subvec(s, start, i);
                    assert(piece@ =~= rest.take(i - start));
                    assert(rest.skip(i - start + op.len()) =~= s@.skip(i + op.len()));
                    if trim_vec(&piece).len() > 0 {
                        parts.push(piece);
                    }
                    start = i + op.len();
                },
                None => {
                    let piece = subvec(s, start, s.len());
                    if trim_vec(&piece).len() > 0 {
                        parts.push(piece);
                    }
                    done = true;
                },
            }
        }
    } else {
        let piece = subvec(s, 0, s.len());
        assert(piece@ =~= s@);
        if trim_vec(&piece).len() > 0 {
            parts.push(piece);
        }
    }
    if parts.len() == 0 {
        let whole = subvec(s, 0, s.len());
        parts.push(whole);
    }
    parts
}

/// Splits `expression` at the occurrences of `operator` that stand outside
/// all parentheses. Blank pieces are dropped; where nothing is left, the
/// expression itself is the only piece.
pub fn split_by_operator(expression: &str, operator: &str) -> (r: Vec<String>)
    ensures
        crate::text::string_views(r@) == operands(expression@, operator@),
{
    let s = chars_of(expression);
    let op = chars_of(operator);
    let parts = split_operands(&s, &op);
    let mut r: Vec<String> = Vec::new();
    let mut i: usize = 0;
    while i < parts.len()
        invariant
            i <= parts.len(),
            r.len() == i,
            forall|j: int| 0 <= j < i ==> r@[j]@ == parts@[j]@,
        decreases parts.len() - i,
    {
        r.push(string_of(&parts[i]));
        i += 1;
    }
    r
}

// ---------------------------------------------------------------------------
// Evaluation
// ---------------------------------------------------------------------------

/// The index of the first column named `name`, or -1 where there is none.
pub open spec fn column_index(schema: Seq<ColumnView>, name: Seq<char>) -> int
    decreases schema.len(),
{
    if schema.len() == 0 {
        -1
    } else {
        let r = column_index(schema.drop_last(), name);
        if r >= 0 {
            r
        } else if schema.last().name == name {
            schema.len() - 1
        } else {
            -1
        }
    }
}

/// The index of a name is that of the first column that bears it.
pub proof fn lemma_column_index(schema: Seq<ColumnView>, name: Seq<char>)
    ensures
        -1 <= column_index(schema, name) < schema.len(),
        column_index(schema, name) >= 0 ==> schema[column_index(schema, name)].name == name,
        forall|i: int|
            0 <= i < schema.len() && (column_index(schema, name) < 0 || i < column_index(
                schema,
                name,
            )) ==> (#[trigger] schema[i]).name != name,
    decreases schema.len(),
{
    if schema.len() > 0 {
        lemma_column_index(schema.drop_last(), name);
        assert forall|i: int|
            0 <= i < schema.len() && (column_index(schema, name) < 0 || i < column_index(
                schema,
                name,
            )) implies (#[trigger] schema[i]).name != name by {
            if i < schema.len() - 1 {
                assert(schema[i] == schema.drop_last()[i]);
            }
        }
    }
}

/// Finds the first column named `name`.
pub fn find_column(schema: &[ColumnDefinition], name: &Vec<char>) -> (r: Option<usize>)
    ensures
        match r {
            Some(i) => i < schema.len() && column_index(schema_view(schema@), name@) == i,
            None => column_index(schema_view(schema@), name@) == -1,
        },
{
    let ghost cs = schema_view(schema@);
    let mut i: usize = 0;
    while i < schema.len()
        invariant
            i <= schema.len(),
            cs == schema_view(schema@),
            forall|j: int| 0 <= j < i ==> (#[trigger] cs[j]).name != name@,
        decreases schema.len() - i,
    {
        let candidate = chars_of(schema[i].name.as_str());
        if vec_eq(&candidate, name) {
            proof {
                assert(cs[i as int].name == name@);
                lemma_column_index(cs, name@);
            }
            return Some(i);
        }
        i += 1;
    }
    proof {
        lemma_column_index(cs, name@);
    }
    None
}

/// The truth of the condition `column = literal`: the column is known, the
/// row has a value in it, and the value's literal is the text behind the
/// `=`, both sides trimmed. A text without `=` is false.
pub open spec fn eval_condition(row: Seq<SqlValueView>, schema: Seq<ColumnView>, c: Seq<char>) -> bool {
    let eq = index_of(c, '=');
    if 0 <= eq < c.len() {
        let index = column_index(schema, trim(c.take(eq)));
        0 <= index < row.len() && literal_text(row[index]) == trim(c.skip(eq + 1))
    } else {
        false
    }
}

/// `e` starts with `(` and ends with `)`.
pub open spec fn is_group(e: Seq<char>) -> bool {
    e.len() >= 2 && e[0] == '(' && e.last() == ')'
}

/// The truth of an `Or` expression: one of the operands of ` OR ` is true.
pub open spec fn eval_or(row: Seq<SqlValueView>, schema: Seq<ColumnView>, e: Seq<char>) -> bool
    decreases e.len(), 2int,
{
    exists|k: int|
        0 <= k < operands(e, " OR "@).len() && trim(#[trigger] operands(e, " OR "@)[k]).len()
            <= e.len() && eval_and(row, schema, trim(operands(e, " OR "@)[k]))
}

/// The truth of an `And` expression: every operand of ` AND ` is true.
pub open spec fn eval_and(row: Seq<SqlValueView>, schema: Seq<ColumnView>, e: Seq<char>) -> bool
    decreases e.len(), 1int,
{
    forall|k: int|
        0 <= k < operands(e, " AND "@).len() && trim(#[trigger] operands(e, " AND "@)[k]).len()
            <= e.len() ==> eval_primary(row, schema, trim(operands(e, " AND "@)[k]))
}

/// The truth of a primary expression: of what stands between the
/// parentheses of a group, or of a condition.
pub open spec fn eval_primary(row: Seq<SqlValueView>, schema: Seq<ColumnView>, e: Seq<char>) -> bool
    decreases e.len(), 0int,
{
    if is_group(e) {
        eval_or(row, schema, e.subrange(1, e.len() - 1))
    } else {
        eval_condition(row, schema, e)
    }
}

/// The truth of a `WHERE` clause on a row.
pub open spec fn eval_where(row: Seq<SqlValueView>, schema: Seq<ColumnView>, clause: Seq<char>) -> bool {
    eval_or(row, schema, trim(clause))
}

/// The text with which a value is compared in a condition: its literal.
pub fn format_sql_value_for_comparison(value: &SqlValue) -> (r: String)
    ensures
        r@ == literal_text(value@),
{
    value.render()
}

fn condition_holds(row: &[SqlValue], schema: &[ColumnDefinition], c: &Vec<char>) -> (r: bool)
    ensures
        r == eval_condition(row_view(row@), schema_view(schema@), c@),
{
    assert(c@.skip(0) =~= c@);
    match find_char(c, 0, '=') {
        Some(eq) => {
            let name = trim_vec(&subvec(c, 0, eq));
            let expected = trim_vec(&subvec(c, eq + 1, c.len()));
            match find_column(schema, &name) {
                Some(index) => {
                    if index < row.len() {
                        let actual = chars_of(row[index].render().as_str());
                        vec_eq(&actual, &expected)
                    } else {
                        false
                    }
                },
                None => false,
            }
        },
        None => false,
    }
}

/// Evaluates a single condition `column = literal` on a row.
pub fn evaluate_single_condition(row_data: &[SqlValue], schema: &[ColumnDefinition], condition: &str) -> (r:
    bool)
    ensures
        r == eval_condition(row_view(row_data@), schema_view(schema@), condition@),
{
    let c = chars_of(condition);
    condition_holds(row_data, schema, &c)
}

fn or_holds(row: &[SqlValue], schema: &[ColumnDefinition], e: &Vec<char>) -> (r: bool)
    ensures
        r == eval_or(row_view(row@), schema_view(schema@), e@),
    decreases e.len(), 2int,
{
    let op = chars_of(" OR ");
    let parts = split_operands(e, &op);
    let ghost ops = operands(e@, " OR "@);
    proof {
        lemma_operands_len(e@, " OR "@);
    }
    let mut k: usize = 0;
    while k < parts.len()
        invariant
            k <= parts.len(),
            ops == operands(e@, " OR "@),
            views(parts@) == ops,
            forall|j: int| 0 <= j < ops.len() ==> trim(#[trigger] ops[j]).len() <= e.len(),
            forall|j: int|
                0 <= j < k ==> !eval_and(row_view(row@), schema_view(schema@), trim(#[trigger] ops[j])),
        decreases parts.len() - k,
    {
        let part = trim_vec(&parts[k]);
        assert(parts@[k as int]@ == ops[k as int]);
        if and_holds(row, schema, &part) {
            return true;
        }
        k += 1;
    }
    false
}

fn and_holds(row: &[SqlValue], schema: &[ColumnDefinition], e: &Vec<char>) -> (r: bool)
    ensures
        r == eval_and(row_view(row@), schema_view(schema@), e@),
    decreases e.len(), 1int,
{
    let op = chars_of(" AND ");
    let parts = split_operands(e, &op);
    let ghost ops = operands(e@, " AND "@);
    proof {
        lemma_operands_len(e@, " AND "@);
    }
    let mut k: usize = 0;
    while k < parts.len()
        invariant
            k <= parts.len(),
            ops == operands(e@, " AND "@),
            views(parts@) == ops,
            forall|j: int| 0 <= j < ops.len() ==> trim(#[trigger] ops[j]).len() <= e.len(),
            forall|j: int|
                0 <= j < k ==> eval_primary(
                    row_view(row@),
                    schema_view(schema@),
                    trim(#[trigger] ops[j]),
                ),
        decreases parts.len() - k,
    {
        let part = trim_vec(&parts[k]);
        assert(parts@[k as int]@ == ops[k as int]);
        if !primary_holds(row, schema, &part) {
            return false;
        }
        k += 1;
    }
    true
}

fn primary_holds(row: &[SqlValue], schema: &[ColumnDefinition], e: &Vec<char>) -> (r: bool)
    ensures
        r == eval_primary(row_view(row@), schema_view(schema@), e@),
    decreases e.len(), 0int,
{
    if e.len() >= 2 && e[0] == '(' && e[e.len() - 1] == ')' {
        let inner = subvec(e, 1, e.len() - 1);
        or_holds(row, schema, &inner)
    } else {
        condition_holds(row, schema, e)
    }
}

/// Evaluates an `Or` expression on a row.
pub fn parse_or_expression(row_data: &[SqlValue], schema: &[ColumnDefinition], expression: &str) -> (r:
    bool)
    ensures
        r == eval_or(row_view(row_data@), schema_view(schema@), expression@),
{
    let e = chars_of(expression);
    or_holds(row_data, schema, &e)
}

/// Evaluates an `And` expression on a row.
pub fn parse_and_expression(row_data: &[SqlValue], schema: &[ColumnDefinition], expression: &str) -> (r:
    bool)
    ensures
        r == eval_and(row_view(row_data@), schema_view(schema@), expression@),
{
    let e = chars_of(expression);
    and_holds(row_data, schema, &e)
}

/// Evaluates a primary expression on a row: a group in parentheses or a
/// condition, without whitespace around it.
pub fn parse_primary_expression(row_data: &[SqlValue], schema: &[ColumnDefinition], expression: &str) -> (r:
    bool)
    ensures
        r == eval_primary(row_view(row_data@), schema_view(schema@), expression@),
{
    let e = chars_of(expression);
    primary_holds(row_data, schema, &e)
}

/// Evaluates a `WHERE` clause on a row.
pub fn evaluate_where_condition(row_data: &[SqlValue], schema: &[ColumnDefinition], where_condition: &str) -> (r:
    bool)
    ensures
        r == eval_where(row_view(row_data@), schema_view(schema@), where_condition@),
{
    let e = trim_vec(&chars_of(where_condition));
    or_holds(row_data, schema, &e)
}

} // verus!
