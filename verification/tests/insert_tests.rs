use sqlcord::insert::{
    complete_insert, format_schema_info, format_sql_values_for_display, insert_row, plan_insert,
    InsertError,
};
use sqlcord::codec::extract_values_from_message;
use sqlcord::query::{plan_select, run_select};
use sqlcord::schema::parse_schema;
use sqlcord::unique::KeyError;
use sqlcord::validate::Violation;
use sqlcord::values::{parse_values, LiteralError, SqlValue};

const TOPIC: &str = "Schema: id INT PRIMARY KEY, name VARCHAR(5) NOT NULL";

#[test]
fn insert_scenario_second_row_with_the_same_key_fails() {
    let mut log: Vec<String> = Vec::new();
    let first = insert_row("1, 'Ann'", Some(TOPIC), Some(&log), 1431648000).unwrap();
    assert_eq!(first, "TIMESTAMP: 2015-05-15 00:00:00 UTC\nDATA:\n  id: 1\n  name: 'Ann'");
    log.push(first);
    match insert_row("1, 'Bob'", Some(TOPIC), Some(&log), 1431648001) {
        Err(InsertError::Key(KeyError::PrimaryKeyViolation { columns, values })) => {
            assert_eq!(columns, vec!["id".to_string()]);
            assert_eq!(values, vec![SqlValue::Integer(1)]);
        }
        other => panic!("unexpected result: {:?}", other),
    }
    let second = insert_row("2, 'Bob'", Some(TOPIC), Some(&log), 1431648001).unwrap();
    log.push(second);
    assert_eq!(log.len(), 2);
}

#[test]
fn insert_steps_fail_in_order() {
    let log: Vec<String> = Vec::new();
    assert!(matches!(
        insert_row("1, 'open", Some("Schema: broken"), Some(&log), 0),
        Err(InsertError::Literal(LiteralError::UnterminatedString))
    ));
    assert!(matches!(
        insert_row("1, 'Ann'", Some("Schema: broken"), Some(&log), 0),
        Err(InsertError::Schema(_))
    ));
    assert!(matches!(
        insert_row("1", Some(TOPIC), Some(&log), 0),
        Err(InsertError::Validation(Violation::ArityMismatch { expected: 2, actual: 1 }))
    ));
    assert!(matches!(
        insert_row("1, 'toolong'", Some(TOPIC), Some(&log), 0),
        Err(InsertError::Validation(Violation::StringTooLong { .. }))
    ));
    assert!(matches!(
        insert_row("1, 'Ann'", Some(TOPIC), Some(&log), i64::MAX),
        Err(InsertError::Timestamp)
    ));
}

#[test]
fn insert_fails_open_when_records_are_unreadable() {
    assert!(insert_row("1, 'Ann'", Some(TOPIC), None, 0).is_ok());
}

#[test]
fn insert_without_topic_or_declaration_takes_any_row() {
    assert_eq!(
        insert_row("1, 'x', NULL", None, Some(&Vec::new()), 0).unwrap(),
        "TIMESTAMP: 1970-01-01 00:00:00 UTC\nDATA:\n  column_1: 1\n  column_2: 'x'\n  column_3: NULL"
    );
    assert!(insert_row("true", Some("a plain topic"), None, 0).is_ok());
}

#[test]
fn insert_in_two_steps() {
    let plan = plan_insert("7, 'Max'", Some(TOPIC)).unwrap();
    assert_eq!(plan.values, parse_values("7, 'Max'").unwrap());
    assert_eq!(plan.schema.len(), 2);
    let record = complete_insert(&plan, Some(&Vec::new()), 86400).unwrap();
    assert_eq!(extract_values_from_message(&record, &plan.schema), Some(plan.values.clone()));
    let log = vec![record];
    assert!(matches!(complete_insert(&plan, Some(&log), 86401), Err(InsertError::Key(_))));
    assert!(complete_insert(&plan, None, 86401).is_ok());
}

#[test]
fn inserted_rows_are_selected_back() {
    let mut log: Vec<String> = Vec::new();
    for (i, list) in ["1, 'Ann'", "2, 'Bob'", "3, 'Ann'"].iter().enumerate() {
        let record = insert_row(list, Some(TOPIC), Some(&log), i as i64).unwrap();
        log.push(record);
    }
    let plan = plan_select("id", Some(TOPIC)).unwrap();
    let result = run_select(&plan, &log, false, Some("name='Ann'"));
    assert_eq!(result.total_rows, 2);
    assert_eq!(result.rows, vec![vec!["1".to_string()], vec!["3".to_string()]]);
}

#[test]
fn confirmation_lists_the_values() {
    let schema = parse_schema("id INT, name VARCHAR(5)").unwrap();
    let row = parse_values("1, 'Ann', 3").unwrap();
    assert_eq!(
        format_sql_values_for_display(&row, &schema),
        "• **id:** 1\n• **name:** 'Ann'"
    );
    assert_eq!(
        format_sql_values_for_display(&row, &[]),
        "• **Column 1:** 1\n• **Column 2:** 'Ann'\n• **Column 3:** 3"
    );
    assert_eq!(format_sql_values_for_display(&[], &schema), "");
}

#[test]
fn schema_info_shows_the_declaration() {
    let schema = parse_schema("id int primary key, name text(5) not null").unwrap();
    assert_eq!(format_schema_info(&schema), "id INT PRIMARY KEY, name VARCHAR(5) NOT NULL");
    assert_eq!(
        format_schema_info(&Vec::new()),
        "No schema defined (flexible insertion allowed)"
    );
}
