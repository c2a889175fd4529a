use sqlcord::display::format_select_results;
use sqlcord::query::SelectResult;

fn strings(list: &[&str]) -> Vec<String> {
    list.iter().map(|s| s.to_string()).collect()
}

#[test]
fn result_table_pads_the_columns() {
    let result = SelectResult {
        columns: strings(&["id", "name"]),
        rows: vec![strings(&["1", "'Ann'"]), strings(&["2", "'Bob'"])],
        distinct: false,
        filter: None,
        total_rows: 2,
    };
    assert_eq!(
        format_select_results(&result, "users"),
        "**Table:** users\n**Columns:** id, name\n**Rows returned:** 2\n\n```\nRow | id  | name \n-----------------\n1   | 1   | 'Ann'\n2   | 2   | 'Bob'\n```"
    );
}

#[test]
fn result_without_rows_says_so() {
    let result = SelectResult {
        columns: strings(&["id"]),
        rows: Vec::new(),
        distinct: true,
        filter: Some("id=1".to_string()),
        total_rows: 0,
    };
    assert_eq!(
        format_select_results(&result, "t"),
        "**Table:** t\n**Columns:** id\n**Modifier:** DISTINCT\n**Filter:** WHERE id=1\n**Rows returned:** 0\n\n*No rows found matching the criteria.*"
    );
}

#[test]
fn result_table_cuts_wide_cells_and_counts_hidden_rows() {
    let long = "x".repeat(60);
    let result = SelectResult {
        columns: strings(&["c"]),
        rows: vec![vec![long.clone()], strings(&["é"])],
        distinct: false,
        filter: None,
        total_rows: 25,
    };
    let cut = format!("{}...", "x".repeat(47));
    let expected = format!(
        "**Table:** t\n**Columns:** c\n**Rows returned:** 25\n\n```\nRow | c{}\n{}\n1   | {}\n2   | é{}\n... and 23 more rows\n```\n\n*Note: Some long values have been truncated for display. Use more specific column selection to see full values.*",
        " ".repeat(49),
        "-".repeat(56),
        cut,
        " ".repeat(49),
    );
    assert_eq!(format_select_results(&result, "t"), expected);
}

#[test]
fn result_table_shows_only_cells_that_have_a_column() {
    let result = SelectResult {
        columns: strings(&["a", "long_header"]),
        rows: vec![strings(&["1", "2", "3"]), strings(&["4"])],
        distinct: false,
        filter: None,
        total_rows: 2,
    };
    assert_eq!(
        format_select_results(&result, "t"),
        "**Table:** t\n**Columns:** a, long_header\n**Rows returned:** 2\n\n```\nRow | a   | long_header\n-----------------------\n1   | 1   | 2          \n2   | 4  \n```"
    );
}
