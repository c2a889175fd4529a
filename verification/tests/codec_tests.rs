use sqlcord::codec::{
    encode_record, extract_values_from_message, format_sql_values_for_storage, parse_stored_value,
};
use sqlcord::schema::parse_schema;
use sqlcord::values::{parse_values, SqlValue};

fn text(s: &str) -> SqlValue {
    SqlValue::String(s.to_string())
}

#[test]
fn record_has_timestamp_and_one_line_for_each_value() {
    let schema = parse_schema("id INT, name VARCHAR(10), ok BOOLEAN, note VARCHAR(5)").unwrap();
    let row = vec![SqlValue::Integer(7), text("Ann"), SqlValue::Boolean(false), SqlValue::Null];
    assert_eq!(
        encode_record("2025-01-02 03:04:05 UTC", &row, &schema),
        "TIMESTAMP: 2025-01-02 03:04:05 UTC\nDATA:\n  id: 7\n  name: 'Ann'\n  ok: false\n  note: NULL"
    );
}

#[test]
fn record_without_schema_numbers_the_columns() {
    let row = vec![SqlValue::Integer(1), SqlValue::Float("2.5".to_string())];
    assert_eq!(
        encode_record("t", &row, &[]),
        "TIMESTAMP: t\nDATA:\n  column_1: 1\n  column_2: 2.5"
    );
    assert_eq!(encode_record("t", &[], &[]), "TIMESTAMP: t\nDATA:");
}

#[test]
fn record_names_values_beyond_the_schema() {
    let schema = parse_schema("id INT").unwrap();
    let row = vec![SqlValue::Integer(1), SqlValue::Integer(2), SqlValue::Integer(3)];
    assert_eq!(
        encode_record("t", &row, &schema),
        "TIMESTAMP: t\nDATA:\n  id: 1\n  extra_1: 2\n  extra_2: 3"
    );
}

#[test]
fn record_timestamp_is_written_in_utc() {
    let schema = parse_schema("id INT").unwrap();
    let row = vec![SqlValue::Integer(1)];
    assert_eq!(
        format_sql_values_for_storage(&row, &schema, 1431648000).unwrap(),
        "TIMESTAMP: 2015-05-15 00:00:00 UTC\nDATA:\n  id: 1"
    );
    assert_eq!(
        format_sql_values_for_storage(&row, &schema, 0).unwrap(),
        "TIMESTAMP: 1970-01-01 00:00:00 UTC\nDATA:\n  id: 1"
    );
    assert_eq!(
        format_sql_values_for_storage(&row, &schema, -1).unwrap(),
        "TIMESTAMP: 1969-12-31 23:59:59 UTC\nDATA:\n  id: 1"
    );
    assert_eq!(
        format_sql_values_for_storage(&row, &schema, 1767225599).unwrap(),
        "TIMESTAMP: 2025-12-31 23:59:59 UTC\nDATA:\n  id: 1"
    );
    assert!(format_sql_values_for_storage(&row, &schema, i64::MAX).is_none());
    assert!(format_sql_values_for_storage(&row, &schema, i64::MIN).is_none());
}

#[test]
fn record_round_trip() {
    let schema = parse_schema(
        "id INT PRIMARY KEY, name VARCHAR(40), ok BOOLEAN, score DOUBLE, born DATE, note VARCHAR(9)",
    )
    .unwrap();
    let lists = [
        "1, 'John', true, 3.5, '2000-01-31', NULL",
        "-9223372036854775808, 'it''s: a, \"test\"', false, 1e-7, '1999-12-31', 'null'",
        "0, '', TRUE, 12, '2024-02-29', '  pad  '",
        "9223372036854775807, 'DATA:', false, -inf, '2024-02-29', ''''",
    ];
    for list in lists {
        let row = parse_values(list).unwrap();
        for timestamp in ["2025-01-02 03:04:05 UTC", "", "odd DATA:"] {
            let record = encode_record(timestamp, &row, &schema);
            assert_eq!(extract_values_from_message(&record, &schema), Some(row.clone()), "{}", list);
        }
    }
}

#[test]
fn record_round_trip_without_schema() {
    let row = parse_values("1, 'a', NULL, 2.5, false").unwrap();
    let record = encode_record("now", &row, &[]);
    assert_eq!(extract_values_from_message(&record, &[]), Some(row));
}

#[test]
fn record_reorders_to_the_schema() {
    let schema = parse_schema("a INT, b INT").unwrap();
    let record = "TIMESTAMP: x\nDATA:\n  b: 2\n  junk line\n  a: 1\n  c: 3";
    assert_eq!(
        extract_values_from_message(record, &schema),
        Some(vec![SqlValue::Integer(1), SqlValue::Integer(2)])
    );
}

#[test]
fn record_with_a_missing_column_holds_no_row() {
    let schema = parse_schema("a INT, b INT").unwrap();
    assert_eq!(extract_values_from_message("DATA:\n  a: 1", &schema), None);
    assert_eq!(extract_values_from_message("DATA:\n", &schema), None);
    assert_eq!(extract_values_from_message("  a: 1\n  b: 2", &schema), None);
    assert_eq!(extract_values_from_message("", &schema), None);
    assert_eq!(extract_values_from_message("DATA:", &schema), None);
}

#[test]
fn record_later_line_overrides_earlier() {
    let schema = parse_schema("a INT").unwrap();
    assert_eq!(
        extract_values_from_message("DATA:\n  a: 1\n  a: 2", &schema),
        Some(vec![SqlValue::Integer(2)])
    );
    assert_eq!(
        extract_values_from_message("DATA:\n  a: 1\n  b: 5\n  a: 2", &[]),
        Some(vec![SqlValue::Integer(5), SqlValue::Integer(2)])
    );
}

#[test]
fn record_lines_may_end_with_carriage_return() {
    let schema = parse_schema("a INT, b VARCHAR(5)").unwrap();
    assert_eq!(
        extract_values_from_message("TIMESTAMP: t\r\nDATA:\n  a: 1\r\n  b: 'x'\r\n", &schema),
        Some(vec![SqlValue::Integer(1), text("x")])
    );
}

#[test]
fn record_lines_need_indent_and_separator() {
    let schema = parse_schema("a INT").unwrap();
    assert_eq!(extract_values_from_message("DATA:\n a: 1", &schema), None);
    assert_eq!(extract_values_from_message("DATA:\n  a:1", &schema), None);
    assert_eq!(
        extract_values_from_message("DATA:\n   a  :   1  ", &schema),
        Some(vec![SqlValue::Integer(1)])
    );
    assert_eq!(extract_values_from_message("DATA:\n\ta: 1", &schema), None);
    assert_eq!(
        extract_values_from_message("DATA:\n    a:   1  ", &schema),
        Some(vec![SqlValue::Integer(1)])
    );
}

#[test]
fn stored_values_are_read_back() {
    assert_eq!(parse_stored_value("NULL"), SqlValue::Null);
    assert_eq!(parse_stored_value(" null "), SqlValue::Null);
    assert_eq!(parse_stored_value("True"), SqlValue::Boolean(true));
    assert_eq!(parse_stored_value("false"), SqlValue::Boolean(false));
    assert_eq!(parse_stored_value("'a b'"), text("a b"));
    assert_eq!(parse_stored_value("\"a b\""), text("a b"));
    assert_eq!(parse_stored_value("'it's'"), text("it's"));
    assert_eq!(parse_stored_value("''"), text(""));
    assert_eq!(parse_stored_value("'"), text("'"));
    assert_eq!(parse_stored_value("'a\""), text("'a\""));
    assert_eq!(parse_stored_value("-17"), SqlValue::Integer(-17));
    assert_eq!(parse_stored_value("1.25"), SqlValue::Float("1.25".to_string()));
    assert_eq!(parse_stored_value("plain text"), text("plain text"));
    assert_eq!(parse_stored_value(""), text(""));
}
