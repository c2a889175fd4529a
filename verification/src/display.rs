//! The plain-text table that shows the result of a `SELECT`.

use vstd::prelude::*;
use crate::query::{cells_view, SelectResult};
use crate::text::{
    append_chars, chars_of, decimal, decimal_chars, join, push_joined, string_views, subvec,
};

verus! {

/// The least width of a column.
pub const MIN_WIDTH: usize = 3;

/// The greatest width of a column; a longer cell is cut.
pub const MAX_WIDTH: usize = 50;

/// The greater of two numbers.
pub open spec fn max_int(a: int, b: int) -> int {
    if a >= b {
        a
    } else {
        b
    }
}

/// The width that the column `j` needs for its header and for its cells in
/// the first `n` rows, and [`MIN_WIDTH`] at least.
pub open spec fn needed_width(header: Seq<char>, cells: Seq<Seq<Seq<char>>>, j: int, n: int) -> int
    decreases n,
{
    if n <= 0 {
        max_int(MIN_WIDTH as int, header.len() as int)
    } else {
        let w = needed_width(header, cells, j, n - 1);
        if 0 <= j < cells[n - 1].len() {
            max_int(w, cells[n - 1][j].len() as int)
        } else {
            w
        }
    }
}

/// The width of the column `j`: what it needs, and [`MAX_WIDTH`] at most.
pub open spec fn column_width(columns: Seq<Seq<char>>, cells: Seq<Seq<Seq<char>>>, j: int) -> int {
    let w = needed_width(columns[j], cells, j, cells.len() as int);
    if w > MAX_WIDTH {
        MAX_WIDTH as int
    } else {
        w
    }
}

/// The width of the column of row numbers, for `n` rows.
pub open spec fn number_width(n: int) -> int {
    let w = max_int(MIN_WIDTH as int, decimal(n as nat).len() as int);
    if n <= 0 {
        MIN_WIDTH as int
    } else if w > MAX_WIDTH {
        MAX_WIDTH as int
    } else {
        w
    }
}

/// `n` times the character `c`.
pub open spec fn repeat(c: char, n: int) -> Seq<char> {
    Seq::new(
        if n > 0 {
            n as nat
        } else {
            0
        },
        |i: int| c,
    )
}

/// `s` with spaces behind it up to the width `w`.
pub open spec fn pad(s: Seq<char>, w: int) -> Seq<char> {
    s + repeat(' ', w - s.len())
}

/// `s`, or where it is wider than `w` its start and `...` in place of the
/// rest.
pub open spec fn fit(s: Seq<char>, w: int) -> Seq<char> {
    if s.len() > w && w >= 3 {
        s.take(w - 3) + seq!['.', '.', '.']
    } else {
        s
    }
}

/// The header line up to the column `n`.
pub open spec fn header_line(columns: Seq<Seq<char>>, cells: Seq<Seq<Seq<char>>>, n: int) -> Seq<char>
    decreases n,
{
    if n <= 0 {
        pad(seq!['R', 'o', 'w'], number_width(cells.len() as int))
    } else {
        header_line(columns, cells, n - 1) + seq![' ', '|', ' '] + pad(
            columns[n - 1],
            column_width(columns, cells, n - 1),
        )
    }
}

/// The sum of the widths of the first `n` columns, with three characters
/// before each.
pub open spec fn columns_width(columns: Seq<Seq<char>>, cells: Seq<Seq<Seq<char>>>, n: int) -> int
    decreases n,
{
    if n <= 0 {
        0
    } else {
        columns_width(columns, cells, n - 1) + 3 + column_width(columns, cells, n - 1)
    }
}

/// The line of the row `i` up to its cell `n`.
pub open spec fn row_line(columns: Seq<Seq<char>>, cells: Seq<Seq<Seq<char>>>, i: int, n: int) -> Seq<
    char,
>
    decreases n,
{
    if n <= 0 {
        pad(decimal((i + 1) as nat), number_width(cells.len() as int))
    } else {
        let w = column_width(columns, cells, n - 1);
        row_line(columns, cells, i, n - 1) + seq![' ', '|', ' '] + pad(fit(cells[i][n - 1], w), w)
    }
}

/// The number of cells of the row `i` that are shown: those that have a
/// column.
pub open spec fn shown_cells(columns: Seq<Seq<char>>, cells: Seq<Seq<Seq<char>>>, i: int) -> int {
    if cells[i].len() <= columns.len() {
        cells[i].len() as int
    } else {
        columns.len() as int
    }
}

/// The lines of the first `n` rows, each with a line feed behind it.
pub open spec fn row_lines(columns: Seq<Seq<char>>, cells: Seq<Seq<Seq<char>>>, n: int) -> Seq<char>
    decreases n,
{
    if n <= 0 {
        Seq::empty()
    } else {
        row_lines(columns, cells, n - 1) + row_line(
            columns,
            cells,
            n - 1,
            shown_cells(columns, cells, n - 1),
        ) + seq!['\n']
    }
}

/// A cell of the first `n` rows is wider than [`MAX_WIDTH`].
pub open spec fn has_wide_cell(cells: Seq<Seq<Seq<char>>>, n: int) -> bool {
    exists|i: int, j: int|
        0 <= i < n && i < cells.len() && 0 <= j < cells[i].len() && (#[trigger] cells[i][j]).len()
            > MAX_WIDTH
}

/// The table: a header line, a line of dashes, one line for each row, and
/// the count of the rows that are not shown.
pub open spec fn table_text(columns: Seq<Seq<char>>, cells: Seq<Seq<Seq<char>>>, total: int) -> Seq<
    char,
> {
    let n = columns.len() as int;
    let head = "```\n"@ + header_line(columns, cells, n) + seq!['\n'] + repeat(
        '-',
        number_width(cells.len() as int) + columns_width(columns, cells, n),
    ) + seq!['\n'] + row_lines(columns, cells, cells.len() as int);
    let counted = if total > cells.len() {
        head + "... and "@ + decimal((total - cells.len()) as nat) + " more rows\n"@
    } else {
        head
    };
    let closed = counted + "```"@;
    if has_wide_cell(cells, cells.len() as int) {
        closed
            + "\n\n*Note: Some long values have been truncated for display. Use more specific column selection to see full values.*"@
    } else {
        closed
    }
}

/// What is said of a query before its rows: the table, the columns, the
/// modifier and the filter where there is one, and the number of rows.
pub open spec fn summary_text(
    table: Seq<char>,
    columns: Seq<Seq<char>>,
    distinct: bool,
    filter: Option<Seq<char>>,
    total: int,
) -> Seq<char> {
    let named = "**Table:** "@ + table + "\n**Columns:** "@ + join(columns, ", "@) + "\n"@;
    let modified = if distinct {
        named + "**Modifier:** DISTINCT\n"@
    } else {
        named
    };
    let filtered = match filter {
        Some(f) => modified + "**Filter:** WHERE "@ + f + "\n"@,
        None => modified,
    };
    filtered + "**Rows returned:** "@ + decimal(total as nat) + "\n\n"@
}

/// The text that shows the result of a query on `table`.
pub open spec fn result_text(
    table: Seq<char>,
    columns: Seq<Seq<char>>,
    cells: Seq<Seq<Seq<char>>>,
    distinct: bool,
    filter: Option<Seq<char>>,
    total: int,
) -> Seq<char> {
    let summary = summary_text(table, columns, distinct, filter, total);
    if cells.len() == 0 {
        summary + "*No rows found matching the criteria.*"@
    } else {
        summary + table_text(columns, cells, total)
    }
}

/// The text of one cell of a table: the literal of its value.
pub fn format_sql_value_for_display_table(value: &crate::values::SqlValue) -> (r: String)
    ensures
        r@ == crate::values::literal_text(value@),
{
    value.render()
}

/// The views of a table of character vectors.
pub open spec fn grid_view(grid: Seq<Vec<Vec<char>>>) -> Seq<Seq<Seq<char>>> {
    Seq::new(grid.len(), |i: int| crate::text::views(grid[i]@))
}

fn chars_of_all(texts: &Vec<String>) -> (r: Vec<Vec<char>>)
    ensures
        crate::text::views(r@) == string_views(texts@),
{
    let mut r: Vec<Vec<char>> = Vec::new();
    let mut i: usize = 0;
    while i < texts.len()
        invariant
            i <= texts.len(),
            r.len() == i,
            forall|k: int| 0 <= k < i ==> r@[k]@ == texts@[k]@,
        decreases texts.len() - i,
    {
        r.push(chars_of(texts[i].as_str()));
        i += 1;
    }
    r
}

fn grid_of(rows: &Vec<Vec<String>>) -> (r: Vec<Vec<Vec<char>>>)
    ensures
        grid_view(r@) == cells_view(rows@),
{
    let mut r: Vec<Vec<Vec<char>>> = Vec::new();
    let mut i: usize = 0;
    while i < rows.len()
        invariant
            i <= rows.len(),
            r.len() == i,
            forall|k: int| 0 <= k < i ==> crate::text::views(r@[k]@) == string_views(rows@[k]@),
        decreases rows.len() - i,
    {
        r.push(chars_of_all(&rows[i]));
        i += 1;
    }
    r
}

fn width_of_column(columns: &Vec<Vec<char>>, grid: &Vec<Vec<Vec<char>>>, j: usize) -> (r: usize)
    requires
        j < columns.len(),
    ensures
        r as int == column_width(crate::text::views(columns@), grid_view(grid@), j as int),
        MIN_WIDTH <= r <= MAX_WIDTH,
{
    let ghost header = columns@[j as int]@;
    let ghost cells = grid_view(grid@);
    let mut w: usize = if columns[j].len() > MIN_WIDTH {
        columns[j].len()
    } else {
        MIN_WIDTH
    };
    let mut i: usize = 0;
    while i < grid.len()
        invariant
            i <= grid.len(),
            j < columns.len(),
            header == columns@[j as int]@,
            cells == grid_view(grid@),
            w as int == needed_width(header, cells, j as int, i as int),
            w >= MIN_WIDTH,
        decreases grid.len() - i,
    {
        if j < grid[i].len() {
            if grid[i][j].len() > w {
                w = grid[i][j].len();
            }
        }
        i += 1;
    }
    if w > MAX_WIDTH {
        MAX_WIDTH
    } else {
        w
    }
}

fn width_of_numbers(n: usize) -> (r: usize)
    ensures
        r as int == number_width(n as int),
        MIN_WIDTH <= r <= MAX_WIDTH,
{
    if n == 0 {
        return MIN_WIDTH;
    }
    let digits = decimal_chars(n as u64).len();
    let w = if digits > MIN_WIDTH {
        digits
    } else {
        MIN_WIDTH
    };
    if w > MAX_WIDTH {
        MAX_WIDTH
    } else {
        w
    }
}

fn push_repeated(out: &mut Vec<char>, c: char, n: usize)
    ensures
        final(out)@ == old(out)@ + repeat(c, n as int),
{
    let mut i: usize = 0;
    while i < n
        invariant
            i <= n,
            out@ == old(out)@ + repeat(c, i as int),
        decreases n - i,
    {
        out.push(c);
        i += 1;
    }
}

fn push_all(out: &mut Vec<char>, s: &Vec<char>)
    ensures
        final(out)@ == old(out)@ + s@,
{
    let mut i: usize = 0;
    while i < s.len()
        invariant
            i <= s.len(),
            out@ == old(out)@ + s@.take(i as int),
        decreases s.len() - i,
    {
        out.push(s[i]);
        i += 1;
    }
}

fn push_padded(out: &mut Vec<char>, s: &Vec<char>, w: usize)
    ensures
        final(out)@ == old(out)@ + pad(s@, w as int),
{
    push_all(out, s);
    let fill = if w > s.len() {
        w - s.len()
    } else {
        0
    };
    push_repeated(out, ' ', fill);
}

fn push_separator(out: &mut Vec<char>)
    ensures
        final(out)@ == old(out)@ + seq![' ', '|', ' '],
{
    out.push(' ');
    out.push('|');
    out.push(' ');
}

fn fit_chars(s: &Vec<char>, w: usize) -> (r: Vec<char>)
    ensures
        r@ == fit(s@, w as int),
{
    if s.len() > w && w >= 3 {
        let mut r = subvec(s, 0, w - 3);
        r.push('.');
        r.push('.');
        r.push('.');
        r
    } else {
        let r = subvec(s, 0, s.len());
        r
    }
}

fn any_wide_cell(grid: &Vec<Vec<Vec<char>>>) -> (r: bool)
    ensures
        r == has_wide_cell(grid_view(grid@), grid.len() as int),
{
    let ghost cells = grid_view(grid@);
    let mut i: usize = 0;
    while i < grid.len()
        invariant
            i <= grid.len(),
            cells == grid_view(grid@),
            !has_wide_cell(cells, i as int),
        decreases grid.len() - i,
    {
        let mut j: usize = 0;
        while j < grid[i as usize].len()
            invariant
                i < grid.len(),
                j <= grid@[i as int].len(),
                cells == grid_view(grid@),
                cells[i as int] == crate::text::views(grid@[i as int]@),
                forall|k: int| 0 <= k < j ==> (#[trigger] cells[i as int][k]).len() <= MAX_WIDTH,
            decreases grid@[i as int].len() - j,
        {
            if grid[i][j].len() > MAX_WIDTH {
                assert(cells[i as int][j as int].len() > MAX_WIDTH);
                return true;
            }
            j += 1;
        }
        assert(!has_wide_cell(cells, i + 1)) by {
            if has_wide_cell(cells, i + 1) {
                let (a, b) = choose|a: int, b: int|
                    0 <= a < i + 1 && a < cells.len() && 0 <= b < cells[a].len() && (
                    #[trigger] cells[a][b]).len() > MAX_WIDTH;
            }
        }
        i += 1;
    }
    false
}

fn push_table(out: &mut Vec<char>, columns: &Vec<Vec<char>>, grid: &Vec<Vec<Vec<char>>>, total: usize)
    ensures
        final(out)@ == old(out)@ + table_text(
            crate::text::views(columns@),
            grid_view(grid@),
            total as int,
        ),
{
    let ghost cols = crate::text::views(columns@);
    let ghost cells = grid_view(grid@);
    let n = columns.len();
    let w0 = width_of_numbers(grid.len());
    let mut widths: Vec<usize> = Vec::new();
    let mut k: usize = 0;
    let mut dashes: u128 = w0 as u128;
    while k < n
        invariant
            k <= n,
            n == columns.len(),
            cols == crate::text::views(columns@),
            cells == grid_view(grid@),
            widths.len() == k,
            forall|j: int| 0 <= j < k ==> #[trigger] widths@[j] as int == column_width(cols, cells, j),
            forall|j: int| 0 <= j < k ==> MIN_WIDTH <= #[trigger] widths@[j] <= MAX_WIDTH,
            dashes as int == w0 + columns_width(cols, cells, k as int),
            dashes <= w0 + 53 * k,
        decreases n - k,
    {
        let w = width_of_column(columns, grid, k);
        widths.push(w);
        dashes = dashes + 3 + w as u128;
        k += 1;
    }
    push_all(out, &chars_of("```\n"));
    let ghost opened = out@;
    let row_word = chars_of("Row");
    proof {
        reveal_strlit("Row");
    }
    push_padded(out, &row_word, w0);
    let mut j: usize = 0;
    while j < n
        invariant
            j <= n,
            n == columns.len(),
            widths.len() == n,
            cols == crate::text::views(columns@),
            cells == grid_view(grid@),
            forall|c: int| 0 <= c < n ==> #[trigger] widths@[c] as int == column_width(cols, cells, c),
            out@ == opened + header_line(cols, cells, j as int),
        decreases n - j,
    {
        push_separator(out);
        push_padded(out, &columns[j], widths[j]);
        j += 1;
    }
    out.push('\n');
    let ghost headed = out@;
    let mut d: u128 = 0;
    while d < dashes
        invariant
            d <= dashes,
            out@ == headed + repeat('-', d as int),
        decreases dashes - d,
    {
        out.push('-');
        d += 1;
    }
    out.push('\n');
    let ghost ruled = out@;
    let mut i: usize = 0;
    while i < grid.len()
        invariant
            i <= grid.len(),
            n == columns.len(),
            widths.len() == n,
            cols == crate::text::views(columns@),
            cells == grid_view(grid@),
            w0 as int == number_width(cells.len() as int),
            forall|c: int| 0 <= c < n ==> #[trigger] widths@[c] as int == column_width(cols, cells, c),
            out@ == ruled + row_lines(cols, cells, i as int),
        decreases grid.len() - i,
    {
        let ghost before = out@;
        let number = decimal_chars((i + 1) as u64);
        push_padded(out, &number, w0);
        let shown = if grid[i].len() <= n {
            grid[i].len()
        } else {
            n
        };
        let mut c: usize = 0;
        while c < shown
            invariant
                c <= shown <= n,
                shown <= grid@[i as int].len(),
                i < grid.len(),
                n == columns.len(),
                widths.len() == n,
                cols == crate::text::views(columns@),
                cells == grid_view(grid@),
                cells[i as int] == crate::text::views(grid@[i as int]@),
                forall|c: int| 0 <= c < n ==> #[trigger] widths@[c] as int == column_width(cols, cells, c),
                out@ == before + row_line(cols, cells, i as int, c as int),
            decreases shown - c,
        {
            push_separator(out);
            let cell = fit_chars(&grid[i][c], widths[c]);
            push_padded(out, &cell, widths[c]);
            c += 1;
        }
        out.push('\n');
        i += 1;
    }
    let ghost head = "```\n"@ + header_line(cols, cells, n as int) + seq!['\n'] + repeat(
        '-',
        number_width(cells.len() as int) + columns_width(cols, cells, n as int),
    ) + seq!['\n'] + row_lines(cols, cells, cells.len() as int);
    if total > grid.len() {
        push_all(out, &chars_of("... and "));
        push_all(out, &decimal_chars((total - grid.len()) as u64));
        push_all(out, &chars_of(" more rows\n"));
    }
    let ghost counted = if total > cells.len() {
        head + "... and "@ + decimal((total - cells.len()) as nat) + " more rows\n"@
    } else {
        head
    };
    push_all(out, &chars_of("```"));
    if any_wide_cell(grid) {
        push_all(
            out,
            &chars_of(
                "\n\n*Note: Some long values have been truncated for display. Use more specific column selection to see full values.*",
            ),
        );
    }
}

/// Writes the text that shows the result of a query on `table_name`: a
/// summary of the query, then the rows as a table of padded columns, or a
/// note where there is no row.
pub fn format_select_results(result: &SelectResult, table_name: &str) -> (r: String)
    ensures
        r@ == result_text(
            table_name@,
            string_views(result.columns@),
            cells_view(result.rows@),
            result.distinct,
            crate::codec::option_text(result.filter),
            result.total_rows as int,
        ),
{
    let mut m = String::from_str("**Table:** ");
    m.append(table_name);
    m.append("\n**Columns:** ");
    push_joined(&mut m, &result.columns, ", ");
    m.append("\n");
    if result.distinct {
        m.append("**Modifier:** DISTINCT\n");
    }
    match &result.filter {
        Some(f) => {
            m.append("**Filter:** WHERE ");
            m.append(f.as_str());
            m.append("\n");
        },
        None => {},
    }
    m.append("**Rows returned:** ");
    append_chars(&mut m, &decimal_chars(result.total_rows as u64));
    m.append("\n\n");
    if result.rows.len() == 0 {
        m.append("*No rows found matching the criteria.*");
    } else {
        let columns = chars_of_all(&result.columns);
        let grid = grid_of(&result.rows);
        let mut table: Vec<char> = Vec::new();
        push_table(&mut table, &columns, &grid, result.total_rows);
        append_chars(&mut m, &table);
    }
    m
}

} // verus!
