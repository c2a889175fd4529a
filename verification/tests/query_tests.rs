use sqlcord::codec::encode_record;
use sqlcord::query::{
    apply_distinct, parse_column_selection, plan_select, run_select, select_columns, select_rows,
    SelectError, SelectionError,
};
use sqlcord::schema::parse_schema;
use sqlcord::values::{parse_values, SqlValue};

fn names(list: &[&str]) -> Vec<String> {
    list.iter().map(|s| s.to_string()).collect()
}

#[test]
fn selection_star_takes_all_columns() {
    let schema = parse_schema("id INT, name VARCHAR(9)").unwrap();
    assert_eq!(parse_column_selection(" * ", &schema).unwrap(), names(&["id", "name"]));
    assert!(matches!(parse_column_selection("*", &[]), Err(SelectionError::SchemaRequired)));
}

#[test]
fn selection_lists_are_trimmed_and_checked() {
    let schema = parse_schema("id INT, name VARCHAR(9)").unwrap();
    assert_eq!(parse_column_selection(" name , id,,name ", &schema).unwrap(), names(&["name", "id", "name"]));
    assert!(matches!(parse_column_selection(" , ", &schema), Err(SelectionError::NoColumns)));
    assert!(matches!(parse_column_selection("", &schema), Err(SelectionError::NoColumns)));
    match parse_column_selection("id, age, size", &schema) {
        Err(SelectionError::UnknownColumn { column }) => assert_eq!(column, "age"),
        other => panic!("unexpected result: {:?}", other),
    }
    assert_eq!(parse_column_selection("anything, else", &[]).unwrap(), names(&["anything", "else"]));
    assert!(matches!(
        parse_column_selection("*, id", &schema),
        Err(SelectionError::UnknownColumn { .. })
    ));
}

#[test]
fn projection_follows_the_selection() {
    let schema = parse_schema("id INT, name VARCHAR(9), ok BOOLEAN").unwrap();
    let row = parse_values("1, 'a', true").unwrap();
    assert_eq!(
        select_columns(&row, &schema, &names(&["ok", "id", "nope", "id"])),
        vec![SqlValue::Boolean(true), SqlValue::Integer(1), SqlValue::Integer(1)]
    );
    let short = parse_values("1").unwrap();
    assert_eq!(
        select_columns(&short, &schema, &names(&["id", "name"])),
        vec![SqlValue::Integer(1), SqlValue::Null]
    );
    assert_eq!(
        select_columns(&row, &[], &names(&["x", "y"])),
        vec![SqlValue::Integer(1), SqlValue::String("a".to_string())]
    );
    assert_eq!(select_columns(&short, &[], &names(&["x", "y"])), vec![SqlValue::Integer(1)]);
}

#[test]
fn distinct_keeps_first_occurrences() {
    let rows = vec![
        parse_values("1, 'a'").unwrap(),
        parse_values("2, 'b'").unwrap(),
        parse_values("1, 'a'").unwrap(),
        parse_values("1, 'A'").unwrap(),
        parse_values("2, 'b'").unwrap(),
        parse_values("1").unwrap(),
    ];
    assert_eq!(
        apply_distinct(rows),
        vec![
            parse_values("1, 'a'").unwrap(),
            parse_values("2, 'b'").unwrap(),
            parse_values("1, 'A'").unwrap(),
            parse_values("1").unwrap(),
        ]
    );
    assert_eq!(apply_distinct(Vec::new()), Vec::<Vec<SqlValue>>::new());
}

fn table() -> (String, Vec<String>) {
    let text = "id INT PRIMARY KEY, name VARCHAR(9), city VARCHAR(9)";
    let schema = parse_schema(text).unwrap();
    let lists = ["1, 'Ann', 'Rome'", "2, 'Bob', 'Oslo'", "3, 'Cid', 'Rome'", "4, 'Ann', 'Rome'"];
    let mut records: Vec<String> = lists
        .iter()
        .map(|list| encode_record("t", &parse_values(list).unwrap(), &schema))
        .collect();
    records.insert(2, "not a record".to_string());
    (format!("Schema: {}", text), records)
}

#[test]
fn select_filters_projects_and_dedups() {
    let (topic, records) = table();
    let schema = parse_schema("id INT PRIMARY KEY, name VARCHAR(9), city VARCHAR(9)").unwrap();
    let rows = select_rows(&records, &schema, &names(&["name", "city"]), Some("city='Rome'"), false);
    assert_eq!(
        rows,
        vec![
            parse_values("'Ann', 'Rome'").unwrap(),
            parse_values("'Cid', 'Rome'").unwrap(),
            parse_values("'Ann', 'Rome'").unwrap(),
        ]
    );
    let rows = select_rows(&records, &schema, &names(&["name", "city"]), Some("city='Rome'"), true);
    assert_eq!(
        rows,
        vec![parse_values("'Ann', 'Rome'").unwrap(), parse_values("'Cid', 'Rome'").unwrap()]
    );
    let plan = plan_select("*", Some(&topic)).unwrap();
    let result = run_select(&plan, &records, false, None);
    assert_eq!(result.columns, names(&["id", "name", "city"]));
    assert_eq!(result.total_rows, 4);
    assert_eq!(result.rows.len(), 4);
    assert_eq!(result.rows[1], names(&["2", "'Bob'", "'Oslo'"]));
    assert!(!result.distinct);
    assert_eq!(result.filter, None);
}

#[test]
fn select_shows_at_most_twenty_rows() {
    let schema = parse_schema("id INT").unwrap();
    let records: Vec<String> = (0..25)
        .map(|i| encode_record("t", &[SqlValue::Integer(i)], &schema))
        .collect();
    let plan = plan_select("id", Some("Schema: id INT")).unwrap();
    let result = run_select(&plan, &records, true, Some("id=3 OR id=id"));
    assert_eq!(result.total_rows, 1);
    assert_eq!(result.rows, vec![names(&["3"])]);
    assert!(result.distinct);
    assert_eq!(result.filter, Some("id=3 OR id=id".to_string()));
    let all = run_select(&plan, &records, false, None);
    assert_eq!(all.total_rows, 25);
    assert_eq!(all.rows.len(), 20);
    assert_eq!(all.rows[19], names(&["19"]));
}

#[test]
fn select_plan_reports_schema_and_selection_errors() {
    assert!(matches!(
        plan_select("*", Some("Schema: name VARCHAR")),
        Err(SelectError::Schema(_))
    ));
    assert!(matches!(
        plan_select("*", None),
        Err(SelectError::Selection(SelectionError::SchemaRequired))
    ));
    assert!(matches!(
        plan_select("x", Some("Schema: id INT")),
        Err(SelectError::Selection(SelectionError::UnknownColumn { .. }))
    ));
    let plan = plan_select("a, b", Some("no declaration here")).unwrap();
    assert_eq!(plan.schema.len(), 0);
    assert_eq!(plan.columns, names(&["a", "b"]));
}
