//! Laws of the `WHERE` evaluator: ` AND ` is conjunction and ` OR ` is
//! disjunction of well-formed operands.

use vstd::prelude::*;
use crate::filter::{
    depth_after, eval_and, eval_or, eval_primary, eval_where, first_top_level, lemma_operands_len,
    operands, top_level_parts,
};
use crate::record_laws::lemma_trim_identity;
use crate::schema::ColumnView;
use crate::text::{ends_with, is_whitespace, starts_with, trim};
use crate::values::SqlValueView;

verus! {

// ---------------------------------------------------------------------------
// Depth
// ---------------------------------------------------------------------------

/// The number of `(` in `s` less the number of `)`.
pub open spec fn balance(s: Seq<char>) -> int
    decreases s.len(),
{
    if s.len() == 0 {
        0
    } else {
        depth_after(balance(s.drop_last()), s.last())
    }
}

/// A text without parentheses.
pub open spec fn has_no_parens(s: Seq<char>) -> bool {
    forall|i: int| 0 <= i < s.len() ==> s[i] != '(' && s[i] != ')'
}

/// The balance of two texts joined is the sum of their balances.
pub proof fn lemma_balance_concat(a: Seq<char>, b: Seq<char>)
    ensures
        balance(a + b) == balance(a) + balance(b),
    decreases b.len(),
{
    if b.len() != 0 {
        assert((a + b).drop_last() =~= a + b.drop_last());
        lemma_balance_concat(a, b.drop_last());
    }
}

/// A text without parentheses is balanced.
pub proof fn lemma_balance_plain(s: Seq<char>)
    requires
        has_no_parens(s),
    ensures
        balance(s) == 0,
    decreases s.len(),
{
    if s.len() > 0 {
        assert forall|i: int| 0 <= i < s.drop_last().len() implies s.drop_last()[i] != '('
            && s.drop_last()[i] != ')' by {}
        lemma_balance_plain(s.drop_last());
    }
}

/// `op` stands in `s` at `i`, outside all parentheses, where the depth at
/// the start of `s` is `depth`.
pub open spec fn is_top_level_match(s: Seq<char>, op: Seq<char>, depth: int, i: int) -> bool {
    &&& 0 <= i < s.len()
    &&& s[i] != '('
    &&& s[i] != ')'
    &&& depth + balance(s.take(i)) == 0
    &&& starts_with(s.skip(i), op)
}

/// The first top-level occurrence is a top-level match, and the first.
pub proof fn lemma_first_match(s: Seq<char>, op: Seq<char>, depth: int)
    ensures
        ({
            let r = first_top_level(s, op, depth);
            &&& r >= 0 ==> is_top_level_match(s, op, depth, r)
            &&& forall|i: int| 0 <= i && (r < 0 || i < r) ==> !is_top_level_match(s, op, depth, i)
        }),
    decreases s.len(),
{
    let r = first_top_level(s, op, depth);
    if s.len() == 0 {
    } else if s[0] != '(' && s[0] != ')' && depth == 0 && starts_with(s, op) {
        assert(s.skip(0) =~= s);
    } else {
        let t = s.drop_first();
        let d = depth_after(depth, s[0]);
        lemma_first_match(t, op, d);
        assert forall|i: int| 1 <= i <= s.len() implies depth + balance(s.take(i)) == d + balance(
            t.take(i - 1),
        ) by {
            assert(s.take(i) =~= seq![s[0]] + t.take(i - 1));
            lemma_balance_concat(seq![s[0]], t.take(i - 1));
            let one = seq![s[0]];
            assert(balance(one.drop_last()) == 0);
        }
        assert forall|i: int| 1 <= i < s.len() implies is_top_level_match(s, op, depth, i)
            == is_top_level_match(t, op, d, i - 1) by {
            assert(s.skip(i) =~= t.skip(i - 1));
        }
        assert(!is_top_level_match(s, op, depth, 0)) by {
            assert(s.skip(0) =~= s);
        }
        assert forall|i: int| 0 <= i && (r < 0 || i < r) implies !is_top_level_match(
            s,
            op,
            depth,
            i,
        ) by {}
    }
}

/// The first top-level occurrence is at `m`, given that `m` is a top-level
/// match and none stands before it.
pub proof fn lemma_first_match_at(s: Seq<char>, op: Seq<char>, depth: int, m: int)
    requires
        is_top_level_match(s, op, depth, m),
        forall|i: int| 0 <= i < m ==> !is_top_level_match(s, op, depth, i),
    ensures
        first_top_level(s, op, depth) == m,
{
    lemma_first_match(s, op, depth);
}

/// There is no top-level occurrence, given that no index is a top-level
/// match.
pub proof fn lemma_no_first_match(s: Seq<char>, op: Seq<char>, depth: int)
    requires
        forall|i: int| 0 <= i < s.len() ==> !is_top_level_match(s, op, depth, i),
    ensures
        first_top_level(s, op, depth) == -1,
{
    lemma_first_match(s, op, depth);
}

// ---------------------------------------------------------------------------
// Splitting a joined expression
// ---------------------------------------------------------------------------

/// No occurrence of `op` starts in `a` and ends behind it, where `op` and
/// `b` follow `a`.
pub open spec fn no_straddle(a: Seq<char>, op: Seq<char>, b: Seq<char>) -> bool {
    forall|i: int|
        0 <= i < a.len() && i + op.len() > a.len() ==> !starts_with(#[trigger] (a + op + b).skip(i), op)
}

/// The top-level pieces of two expressions joined by the operator are the
/// pieces of the one and the pieces of the other.
pub proof fn lemma_parts_concat(a: Seq<char>, op: Seq<char>, b: Seq<char>)
    requires
        op.len() > 0,
        has_no_parens(op),
        balance(a) == 0,
        no_straddle(a, op, b),
    ensures
        top_level_parts(a + op + b, op) == top_level_parts(a, op) + top_level_parts(b, op),
    decreases a.len(),
{
    let s = a + op + b;
    let n = a.len() as int;
    let m = op.len() as int;
    let k = first_top_level(a, op, 0);
    lemma_first_match(a, op, 0);
    assert forall|i: int| 0 <= i && i + m <= n implies (starts_with(#[trigger] s.skip(i), op)
        == starts_with(a.skip(i), op)) by {
        assert(s.skip(i).take(m) =~= a.skip(i).take(m));
    }
    assert forall|i: int| 0 <= i <= n implies #[trigger] s.take(i) == a.take(i) by {}
    assert forall|i: int| 0 <= i < n implies #[trigger] s[i] == a[i] by {}
    if k >= 0 {
        assert forall|i: int| 0 <= i < k implies !is_top_level_match(s, op, 0, i) by {
            if is_top_level_match(s, op, 0, i) {
                assert(is_top_level_match(a, op, 0, i));
            }
        }
        lemma_first_match_at(s, op, 0, k);
        let rest = a.skip(k + m);
        assert(s.skip(k + m) =~= rest + op + b);
        assert(a =~= a.take(k) + op + rest);
        lemma_balance_concat(a.take(k) + op, rest);
        lemma_balance_concat(a.take(k), op);
        lemma_balance_plain(op);
        assert(no_straddle(rest, op, b)) by {
            assert forall|i: int| 0 <= i < rest.len() && i + op.len() > rest.len() implies !starts_with(
                #[trigger] (rest + op + b).skip(i),
                op,
            ) by {
                assert((rest + op + b).skip(i) =~= s.skip(i + k + m));
            }
        }
        lemma_parts_concat(rest, op, b);
    } else {
        assert(s.skip(n) =~= op + b);
        assert((op + b).take(m) =~= op);
        assert(s.take(n) =~= a);
        assert forall|i: int| 0 <= i < n implies !is_top_level_match(s, op, 0, i) by {
            if is_top_level_match(s, op, 0, i) {
                if i + m <= n {
                    assert(is_top_level_match(a, op, 0, i));
                }
            }
        }
        lemma_first_match_at(s, op, 0, n);
        assert(s.skip(n + m) =~= b);
    }
}

/// An expression that has a first and a last character, neither of them
/// whitespace.
pub open spec fn is_trimmed(e: Seq<char>) -> bool {
    e.len() > 0 && !is_whitespace(e[0]) && !is_whitespace(e.last())
}

proof fn lemma_trim_end_keeps(s: Seq<char>, i: int)
    requires
        0 <= i < s.len(),
        !is_whitespace(s[i]),
    ensures
        crate::text::trim_end(s).len() > i,
    decreases s.len(),
{
    if is_whitespace(s.last()) {
        lemma_trim_end_keeps(s.drop_last(), i);
    }
}

/// A text that starts with a character that is no whitespace is not blank.
pub proof fn lemma_not_blank(s: Seq<char>)
    requires
        s.len() > 0,
        !is_whitespace(s[0]),
    ensures
        trim(s).len() > 0,
{
    lemma_trim_end_keeps(s, 0);
}

/// A trimmed expression has an operand that is not blank.
pub proof fn lemma_trimmed_has_parts(e: Seq<char>, op: Seq<char>)
    requires
        is_trimmed(e),
        op.len() > 0,
        is_whitespace(op[0]),
    ensures
        top_level_parts(e, op).len() > 0,
        operands(e, op) == top_level_parts(e, op),
{
    let k = first_top_level(e, op, 0);
    lemma_first_match(e, op, 0);
    if k >= 0 {
        let piece = e.take(k);
        lemma_not_blank(piece);
    }
}

/// An expression that does not end with ` OR` has no occurrence of ` OR `
/// that ends behind it.
pub proof fn lemma_no_straddle_or(a: Seq<char>, b: Seq<char>)
    requires
        !ends_with(a, " OR"@),
    ensures
        no_straddle(a, " OR "@, b),
{
    reveal_strlit(" OR ");
    reveal_strlit(" OR");
    let op = " OR "@;
    let s = a + op + b;
    let n = a.len() as int;
    assert forall|i: int| 0 <= i < n && i + op.len() > n implies !starts_with(
        #[trigger] (a + op + b).skip(i),
        op,
    ) by {
        if starts_with(s.skip(i), op) {
            let w = s.skip(i).take(4);
            assert(w[0] == s[i] && w[1] == s[i + 1] && w[2] == s[i + 2] && w[3] == s[i + 3]);
            let k = n - i;
            if k == 1 {
            } else if k != 2 {
                assert(a.skip(n - 3) =~= " OR"@);
            }
        }
    }
}

/// An expression that does not end with ` AND` has no occurrence of
/// ` AND ` that ends behind it.
pub proof fn lemma_no_straddle_and(a: Seq<char>, b: Seq<char>)
    requires
        !ends_with(a, " AND"@),
    ensures
        no_straddle(a, " AND "@, b),
{
    reveal_strlit(" AND ");
    reveal_strlit(" AND");
    let op = " AND "@;
    let s = a + op + b;
    let n = a.len() as int;
    assert forall|i: int| 0 <= i < n && i + op.len() > n implies !starts_with(
        #[trigger] (a + op + b).skip(i),
        op,
    ) by {
        if starts_with(s.skip(i), op) {
            let w = s.skip(i).take(5);
            assert(w[0] == s[i] && w[1] == s[i + 1] && w[2] == s[i + 2] && w[3] == s[i + 3] && w[4]
                == s[i + 4]);
            let k = n - i;
            if k == 1 {
            } else if k == 2 {
            } else if k != 3 {
                assert(a.skip(n - 4) =~= " AND"@);
            }
        }
    }
}

// ---------------------------------------------------------------------------
// AND and OR
// ---------------------------------------------------------------------------

/// ` OR ` between two expressions is their disjunction.
///
/// The first expression has as many `(` as `)` and does not end with ` OR`;
/// each of the two has a piece that is not blank.
pub proof fn lemma_or_splits(row: Seq<SqlValueView>, schema: Seq<ColumnView>, a: Seq<char>, b: Seq<char>)
    requires
        balance(a) == 0,
        !ends_with(a, " OR"@),
        top_level_parts(a, " OR "@).len() > 0,
        top_level_parts(b, " OR "@).len() > 0,
    ensures
        eval_or(row, schema, a + " OR "@ + b) == (eval_or(row, schema, a) || eval_or(row, schema, b)),
{
    reveal_strlit(" OR ");
    let op = " OR "@;
    let s = a + op + b;
    lemma_no_straddle_or(a, b);
    lemma_parts_concat(a, op, b);
    lemma_operands_len(a, op);
    lemma_operands_len(b, op);
    let pa = operands(a, op);
    let pb = operands(b, op);
    let ps = operands(s, op);
    if eval_or(row, schema, s) {
        let k = choose|k: int|
            0 <= k < ps.len() && trim(#[trigger] ps[k]).len() <= s.len() && eval_and(
                row,
                schema,
                trim(ps[k]),
            );
    }
    if eval_or(row, schema, a) {
        let k = choose|k: int|
            0 <= k < pa.len() && trim(#[trigger] pa[k]).len() <= a.len() && eval_and(
                row,
                schema,
                trim(pa[k]),
            );
        assert(ps[k] == pa[k]);
    }
    if eval_or(row, schema, b) {
        let k = choose|k: int|
            0 <= k < pb.len() && trim(#[trigger] pb[k]).len() <= b.len() && eval_and(
                row,
                schema,
                trim(pb[k]),
            );
        assert(ps[k + pa.len()] == pb[k]);
    }
}

/// ` AND ` between two expressions is their conjunction.
///
/// The first expression has as many `(` as `)` and does not end with
/// ` AND`; each of the two has a piece that is not blank.
pub proof fn lemma_and_splits(row: Seq<SqlValueView>, schema: Seq<ColumnView>, a: Seq<char>, b: Seq<char>)
    requires
        balance(a) == 0,
        !ends_with(a, " AND"@),
        top_level_parts(a, " AND "@).len() > 0,
        top_level_parts(b, " AND "@).len() > 0,
    ensures
        eval_and(row, schema, a + " AND "@ + b) == (eval_and(row, schema, a) && eval_and(
            row,
            schema,
            b,
        )),
{
    reveal_strlit(" AND ");
    let op = " AND "@;
    let s = a + op + b;
    lemma_no_straddle_and(a, b);
    lemma_parts_concat(a, op, b);
    lemma_operands_len(a, op);
    lemma_operands_len(b, op);
    let pa = operands(a, op);
    let pb = operands(b, op);
    let ps = operands(s, op);
    if eval_and(row, schema, s) {
        assert forall|k: int|
            0 <= k < pa.len() && trim(#[trigger] pa[k]).len() <= a.len() implies eval_primary(
            row,
            schema,
            trim(pa[k]),
        ) by {
            assert(ps[k] == pa[k]);
        }
        assert forall|k: int|
            0 <= k < pb.len() && trim(#[trigger] pb[k]).len() <= b.len() implies eval_primary(
            row,
            schema,
            trim(pb[k]),
        ) by {
            assert(ps[k + pa.len()] == pb[k]);
        }
    }
    if eval_and(row, schema, a) && eval_and(row, schema, b) {
        assert forall|k: int|
            0 <= k < ps.len() && trim(#[trigger] ps[k]).len() <= s.len() implies eval_primary(
            row,
            schema,
            trim(ps[k]),
        ) by {}
    }
}

// ---------------------------------------------------------------------------
// WHERE clauses
// ---------------------------------------------------------------------------

/// A trimmed expression without a top-level ` OR ` is true as an `Or`
/// expression exactly where it is true as an `And` expression.
pub proof fn lemma_or_without_or(row: Seq<SqlValueView>, schema: Seq<ColumnView>, e: Seq<char>)
    requires
        is_trimmed(e),
        first_top_level(e, " OR "@, 0) < 0,
    ensures
        eval_or(row, schema, e) == eval_and(row, schema, e),
{
    let ops = operands(e, " OR "@);
    assert(ops[0] == e);
}

/// `A OR B` is true exactly where `A` is true or `B` is true.
///
/// `A` and `B` are trimmed expressions; `A` has as many `(` as `)` and does
/// not end with ` OR`.
pub proof fn lemma_where_or(row: Seq<SqlValueView>, schema: Seq<ColumnView>, a: Seq<char>, b: Seq<char>)
    requires
        is_trimmed(a),
        is_trimmed(b),
        balance(a) == 0,
        !ends_with(a, " OR"@),
    ensures
        eval_where(row, schema, a + " OR "@ + b) == (eval_where(row, schema, a) || eval_where(
            row,
            schema,
            b,
        )),
{
    reveal_strlit(" OR ");
    lemma_trimmed_has_parts(a, " OR "@);
    lemma_trimmed_has_parts(b, " OR "@);
    lemma_or_splits(row, schema, a, b);
}

/// Two trimmed expressions without a top-level ` OR `, joined by ` AND `,
/// have no top-level ` OR `.
proof fn lemma_and_has_no_or(a: Seq<char>, b: Seq<char>)
    requires
        is_trimmed(a),
        is_trimmed(b),
        balance(a) == 0,
        !ends_with(a, " OR"@),
        !starts_with(b, "OR "@),
        first_top_level(a, " OR "@, 0) < 0,
        first_top_level(b, " OR "@, 0) < 0,
    ensures
        first_top_level(a + " AND "@ + b, " OR "@, 0) < 0,
{
    reveal_strlit(" OR ");
    reveal_strlit(" OR");
    reveal_strlit("OR ");
    reveal_strlit(" AND ");
    let op = " OR "@;
    let and = " AND "@;
    let s = a + and + b;
    let n = a.len() as int;
    lemma_first_match(a, op, 0);
    lemma_first_match(b, op, 0);
    assert forall|i: int| 0 <= i < s.len() implies !is_top_level_match(s, op, 0, i) by {
        if is_top_level_match(s, op, 0, i) {
            let w = s.skip(i).take(4);
            assert(w[0] == s[i] && w[1] == s[i + 1] && w[2] == s[i + 2] && w[3] == s[i + 3]);
            if i + 4 <= n {
                assert(s.take(i) =~= a.take(i));
                assert(a.skip(i).take(4) =~= w);
                assert(is_top_level_match(a, op, 0, i));
            } else if i < n {
                let k = n - i;
                if k == 1 {
                } else if k != 2 {
                    assert(a.skip(n - 3) =~= " OR"@);
                }
            } else if i < n + 5 {
                let j = i - n;
                if j != 0 {
                    assert(b.take(3) =~= "OR "@);
                }
            } else {
                let j = i - n - 5;
                assert(s.take(i) =~= (a + and) + b.take(j));
                lemma_balance_concat(a + and, b.take(j));
                lemma_balance_concat(a, and);
                lemma_balance_plain(and);
                assert(s.skip(i) =~= b.skip(j));
                assert(is_top_level_match(b, op, 0, j));
            }
        }
    }
    lemma_no_first_match(s, op, 0);
}

/// `A AND B` is true exactly where `A` is true and `B` is true.
///
/// `A` and `B` are trimmed expressions without a top-level ` OR `; `A` has
/// as many `(` as `)` and ends with neither ` AND` nor ` OR`, and `B` does
/// not start with `OR `.
pub proof fn lemma_where_and(row: Seq<SqlValueView>, schema: Seq<ColumnView>, a: Seq<char>, b: Seq<char>)
    requires
        is_trimmed(a),
        is_trimmed(b),
        balance(a) == 0,
        !ends_with(a, " AND"@),
        !ends_with(a, " OR"@),
        !starts_with(b, "OR "@),
        first_top_level(a, " OR "@, 0) < 0,
        first_top_level(b, " OR "@, 0) < 0,
    ensures
        eval_where(row, schema, a + " AND "@ + b) == (eval_where(row, schema, a) && eval_where(
            row,
            schema,
            b,
        )),
{
    reveal_strlit(" AND ");
    let s = a + " AND "@ + b;
    lemma_and_has_no_or(a, b);
    lemma_or_without_or(row, schema, s);
    lemma_or_without_or(row, schema, a);
    lemma_or_without_or(row, schema, b);
    lemma_trimmed_has_parts(a, " AND "@);
    lemma_trimmed_has_parts(b, " AND "@);
    lemma_and_splits(row, schema, a, b);
}

// ---------------------------------------------------------------------------
// Groups and precedence
// ---------------------------------------------------------------------------

/// An expression whose parentheses are well nested: none closes before it
/// was opened, and all are closed at the end.
pub open spec fn is_well_nested(e: Seq<char>) -> bool {
    &&& balance(e) == 0
    &&& forall|i: int| 0 <= i <= e.len() ==> balance(#[trigger] e.take(i)) >= 0
}

/// The expression between parentheses.
pub open spec fn group(e: Seq<char>) -> Seq<char> {
    seq!['('] + e + seq![')']
}

/// A text without parentheses is well nested.
pub proof fn lemma_plain_is_well_nested(e: Seq<char>)
    requires
        has_no_parens(e),
    ensures
        is_well_nested(e),
{
    lemma_balance_plain(e);
    assert forall|i: int| 0 <= i <= e.len() implies balance(#[trigger] e.take(i)) >= 0 by {
        let t = e.take(i);
        assert forall|j: int| 0 <= j < t.len() implies t[j] != '(' && t[j] != ')' by {
            assert(t[j] == e[j]);
        }
        lemma_balance_plain(t);
    }
}

/// Two well-nested expressions joined by an operator without parentheses
/// are well nested.
pub proof fn lemma_joined_is_well_nested(a: Seq<char>, op: Seq<char>, b: Seq<char>)
    requires
        is_well_nested(a),
        is_well_nested(b),
        has_no_parens(op),
    ensures
        is_well_nested(a + op + b),
{
    let s = a + op + b;
    lemma_balance_plain(op);
    lemma_balance_concat(a, op);
    lemma_balance_concat(a + op, b);
    assert forall|i: int| 0 <= i <= s.len() implies balance(#[trigger] s.take(i)) >= 0 by {
        if i <= a.len() {
            assert(s.take(i) =~= a.take(i));
        } else if i <= a.len() + op.len() {
            let part = op.take(i - a.len());
            assert(s.take(i) =~= a + part);
            assert forall|j: int| 0 <= j < part.len() implies part[j] != '(' && part[j] != ')' by {
                assert(part[j] == op[j]);
            }
            lemma_balance_plain(part);
            lemma_balance_concat(a, part);
        } else {
            let part = b.take(i - a.len() - op.len());
            assert(s.take(i) =~= (a + op) + part);
            lemma_balance_concat(a + op, part);
        }
    }
}

/// A group is well nested where its inside is.
pub proof fn lemma_group_is_well_nested(e: Seq<char>)
    requires
        is_well_nested(e),
    ensures
        is_well_nested(group(e)),
        balance(group(e)) == 0,
{
    let g = group(e);
    let open = seq!['('];
    let close = seq![')'];
    assert(balance(open) == 1) by {
        assert(open.drop_last() =~= Seq::<char>::empty());
        assert(balance(open.drop_last()) == 0);
    }
    assert(balance(close) == -1) by {
        assert(close.drop_last() =~= Seq::<char>::empty());
        assert(balance(close.drop_last()) == 0);
    }
    lemma_balance_concat(open, e);
    lemma_balance_concat(open + e, close);
    assert forall|i: int| 0 <= i <= g.len() implies balance(#[trigger] g.take(i)) >= 0 by {
        if i == 0 {
            assert(g.take(0) =~= Seq::<char>::empty());
        } else if i <= e.len() + 1 {
            assert(g.take(i) =~= open + e.take(i - 1));
            lemma_balance_concat(open, e.take(i - 1));
        } else {
            assert(g.take(i) =~= g);
        }
    }
}

/// No operator stands at the top level of a group whose inside is well
/// nested.
pub proof fn lemma_group_has_no_top_level(e: Seq<char>, op: Seq<char>)
    requires
        is_well_nested(e),
    ensures
        first_top_level(group(e), op, 0) < 0,
{
    let g = group(e);
    let open = seq!['('];
    assert(balance(open) == 1) by {
        assert(open.drop_last() =~= Seq::<char>::empty());
        assert(balance(open.drop_last()) == 0);
    }
    assert forall|i: int| 0 <= i < g.len() implies !is_top_level_match(g, op, 0, i) by {
        if 1 <= i <= e.len() {
            assert(g.take(i) =~= open + e.take(i - 1));
            lemma_balance_concat(open, e.take(i - 1));
            assert(balance(e.take(i - 1)) >= 0);
        }
    }
    lemma_no_first_match(g, op, 0);
}

/// A trimmed expression without a top-level ` AND ` is true as an `And`
/// expression exactly where it is true as a primary expression.
pub proof fn lemma_and_without_and(row: Seq<SqlValueView>, schema: Seq<ColumnView>, e: Seq<char>)
    requires
        is_trimmed(e),
        first_top_level(e, " AND "@, 0) < 0,
    ensures
        eval_and(row, schema, e) == eval_primary(row, schema, e),
{
    lemma_trim_identity(e);
    let ops = operands(e, " AND "@);
    assert(top_level_parts(e, " AND "@) == crate::filter::keep_nonblank(e));
    assert(ops == seq![e]);
    assert(ops[0] == e);
    if eval_primary(row, schema, e) {
        assert forall|k: int|
            0 <= k < ops.len() && trim(#[trigger] ops[k]).len() <= e.len() implies eval_primary(
            row,
            schema,
            trim(ops[k]),
        ) by {
            assert(ops[k] == e);
        }
    }
}

/// A group is true exactly where its inside is true as an `Or` expression.
pub proof fn lemma_where_group(row: Seq<SqlValueView>, schema: Seq<ColumnView>, e: Seq<char>)
    requires
        is_well_nested(e),
    ensures
        eval_where(row, schema, group(e)) == eval_or(row, schema, e),
{
    let g = group(e);
    assert(g[0] == '(');
    assert(g.last() == ')');
    lemma_trim_identity(g);
    lemma_group_has_no_top_level(e, " OR "@);
    lemma_group_has_no_top_level(e, " AND "@);
    lemma_or_without_or(row, schema, g);
    lemma_and_without_and(row, schema, g);
    assert(g.subrange(1, g.len() - 1) =~= e);
}

/// Precedence: `A OR B AND C` is true exactly where `A` is true, or `B` and
/// `C` are both true.
///
/// `A`, `B` and `C` are trimmed expressions; `A` and `B` have as many `(`
/// as `)`; `A` does not end with ` OR`; `B` and `C` have no top-level
/// ` OR `, `B` ends with neither ` AND` nor ` OR`, and `C` does not start
/// with `OR `.
pub proof fn lemma_where_or_and(
    row: Seq<SqlValueView>,
    schema: Seq<ColumnView>,
    a: Seq<char>,
    b: Seq<char>,
    c: Seq<char>,
)
    requires
        is_trimmed(a),
        is_trimmed(b),
        is_trimmed(c),
        balance(a) == 0,
        balance(b) == 0,
        !ends_with(a, " OR"@),
        !ends_with(b, " AND"@),
        !ends_with(b, " OR"@),
        !starts_with(c, "OR "@),
        first_top_level(b, " OR "@, 0) < 0,
        first_top_level(c, " OR "@, 0) < 0,
    ensures
        eval_where(row, schema, a + " OR "@ + (b + " AND "@ + c)) == (eval_where(row, schema, a) || (
        eval_where(row, schema, b) && eval_where(row, schema, c))),
{
    reveal_strlit(" AND ");
    let right = b + " AND "@ + c;
    assert(right[0] == b[0]);
    assert(right.last() == c.last());
    lemma_where_or(row, schema, a, right);
    lemma_where_and(row, schema, b, c);
}

/// Precedence: `(A OR B) AND C` is true exactly where `A` or `B` is true,
/// and `C` is true.
///
/// `A`, `B` and `C` are trimmed expressions; `A` and `B` are well nested;
/// `A` does not end with ` OR`; `C` has no top-level ` OR ` and does not
/// start with `OR `.
pub proof fn lemma_where_grouped_or_and(
    row: Seq<SqlValueView>,
    schema: Seq<ColumnView>,
    a: Seq<char>,
    b: Seq<char>,
    c: Seq<char>,
)
    requires
        is_trimmed(a),
        is_trimmed(b),
        is_trimmed(c),
        is_well_nested(a),
        is_well_nested(b),
        !ends_with(a, " OR"@),
        !starts_with(c, "OR "@),
        first_top_level(c, " OR "@, 0) < 0,
    ensures
        eval_where(row, schema, group(a + " OR "@ + b) + " AND "@ + c) == ((eval_where(
            row,
            schema,
            a,
        ) || eval_where(row, schema, b)) && eval_where(row, schema, c)),
{
    reveal_strlit(" OR ");
    reveal_strlit(" AND");
    reveal_strlit(" OR");
    let inner = a + " OR "@ + b;
    let g = group(inner);
    assert(has_no_parens(" OR "@));
    lemma_joined_is_well_nested(a, " OR "@, b);
    lemma_group_is_well_nested(inner);
    lemma_group_has_no_top_level(inner, " OR "@);
    assert(g[0] == '(');
    assert(g.last() == ')');
    assert(!ends_with(g, " AND"@)) by {
        if ends_with(g, " AND"@) {
            assert(g.skip(g.len() - 4)[3] == 'D');
        }
    }
    assert(!ends_with(g, " OR"@)) by {
        if ends_with(g, " OR"@) {
            assert(g.skip(g.len() - 3)[2] == 'R');
        }
    }
    lemma_where_and(row, schema, g, c);
    lemma_where_group(row, schema, inner);
    lemma_trimmed_has_parts(a, " OR "@);
    lemma_trimmed_has_parts(b, " OR "@);
    lemma_or_splits(row, schema, a, b);
    lemma_trim_identity(a);
    lemma_trim_identity(b);
}

/// Grouping matters: where `A` is true and `C` is false, `(A OR B) AND C`
/// is false and `A OR B AND C` is true.
pub proof fn lemma_grouping_matters(
    row: Seq<SqlValueView>,
    schema: Seq<ColumnView>,
    a: Seq<char>,
    b: Seq<char>,
    c: Seq<char>,
)
    requires
        is_trimmed(a),
        is_trimmed(b),
        is_trimmed(c),
        is_well_nested(a),
        is_well_nested(b),
        !ends_with(a, " OR"@),
        !ends_with(b, " AND"@),
        !ends_with(b, " OR"@),
        !starts_with(c, "OR "@),
        first_top_level(b, " OR "@, 0) < 0,
        first_top_level(c, " OR "@, 0) < 0,
        eval_where(row, schema, a),
        !eval_where(row, schema, c),
    ensures
        !eval_where(row, schema, group(a + " OR "@ + b) + " AND "@ + c),
        eval_where(row, schema, a + " OR "@ + (b + " AND "@ + c)),
{
    lemma_where_grouped_or_and(row, schema, a, b, c);
    lemma_where_or_and(row, schema, a, b, c);
}

} // verus!
