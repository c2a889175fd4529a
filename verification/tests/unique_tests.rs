use sqlcord::codec::encode_record;
use sqlcord::schema::parse_schema;
use sqlcord::unique::{check_primary_key_duplicates, sql_values_equal, KeyError};
use sqlcord::values::{parse_values, SqlValue};

fn records(schema_text: &str, lists: &[&str]) -> Vec<String> {
    let schema = parse_schema(schema_text).unwrap();
    lists
        .iter()
        .map(|list| encode_record("2025-01-01 00:00:00 UTC", &parse_values(list).unwrap(), &schema))
        .collect()
}

#[test]
fn key_duplicate_is_refused() {
    let text = "id INT PRIMARY KEY, name VARCHAR(10)";
    let schema = parse_schema(text).unwrap();
    let existing = records(text, &["1, 'a'", "2, 'b'"]);
    let row = parse_values("2, 'other'").unwrap();
    match check_primary_key_duplicates(&row, &schema, Some(&existing)) {
        Err(KeyError::PrimaryKeyViolation { columns, values }) => {
            assert_eq!(columns, vec!["id".to_string()]);
            assert_eq!(values, vec![SqlValue::Integer(2)]);
        }
        other => panic!("unexpected result: {:?}", other),
    }
    let fresh = parse_values("3, 'a'").unwrap();
    assert!(check_primary_key_duplicates(&fresh, &schema, Some(&existing)).is_ok());
}

#[test]
fn key_of_several_columns_must_match_in_all() {
    let text = "a INT PRIMARY KEY, b VARCHAR(5) PRIMARY KEY, c INT";
    let schema = parse_schema(text).unwrap();
    let existing = records(text, &["1, 'x', 10", "2, 'y', 20"]);
    assert!(check_primary_key_duplicates(&parse_values("1, 'y', 10").unwrap(), &schema, Some(&existing)).is_ok());
    assert!(check_primary_key_duplicates(&parse_values("2, 'x', 20").unwrap(), &schema, Some(&existing)).is_ok());
    match check_primary_key_duplicates(&parse_values("2, 'y', 99").unwrap(), &schema, Some(&existing)) {
        Err(KeyError::PrimaryKeyViolation { columns, values }) => {
            assert_eq!(columns, vec!["a".to_string(), "b".to_string()]);
            assert_eq!(values, vec![SqlValue::Integer(2), SqlValue::String("y".to_string())]);
        }
        other => panic!("unexpected result: {:?}", other),
    }
}

#[test]
fn key_check_without_primary_key_accepts() {
    let text = "id INT, name VARCHAR(10)";
    let schema = parse_schema(text).unwrap();
    let existing = records(text, &["1, 'a'"]);
    assert!(check_primary_key_duplicates(&parse_values("1, 'a'").unwrap(), &schema, Some(&existing)).is_ok());
    assert!(check_primary_key_duplicates(&parse_values("1").unwrap(), &[], Some(&existing)).is_ok());
}

#[test]
fn key_check_fails_open_when_records_are_unreadable() {
    let schema = parse_schema("id INT PRIMARY KEY").unwrap();
    assert!(check_primary_key_duplicates(&parse_values("1").unwrap(), &schema, None).is_ok());
}

#[test]
fn key_check_passes_over_records_without_a_row() {
    let schema = parse_schema("id INT PRIMARY KEY, name VARCHAR(5)").unwrap();
    let existing = vec![
        "hello".to_string(),
        "DATA:\n  id: 1".to_string(),
        "DATA:\n  name: 'x'".to_string(),
    ];
    assert!(check_primary_key_duplicates(&parse_values("1, 'x'").unwrap(), &schema, Some(&existing)).is_ok());
    assert!(check_primary_key_duplicates(&parse_values("1, 'x'").unwrap(), &schema, Some(&Vec::new())).is_ok());
}

#[test]
fn key_value_must_be_present() {
    let schema = parse_schema("a INT, id INT PRIMARY KEY").unwrap();
    let row = parse_values("1").unwrap();
    assert!(matches!(
        check_primary_key_duplicates(&row, &schema, Some(&Vec::new())),
        Err(KeyError::PrimaryKeyMissing)
    ));
    assert!(matches!(
        check_primary_key_duplicates(&row, &schema, None),
        Err(KeyError::PrimaryKeyMissing)
    ));
}

#[test]
fn key_values_are_compared_by_kind_and_content() {
    let text = "id DECIMAL PRIMARY KEY";
    let schema = parse_schema(text).unwrap();
    let existing = records(text, &["1", "2.5", "'3'"]);
    assert!(check_primary_key_duplicates(&parse_values("1").unwrap(), &schema, Some(&existing)).is_err());
    assert!(check_primary_key_duplicates(&parse_values("2.5").unwrap(), &schema, Some(&existing)).is_err());
    assert!(check_primary_key_duplicates(&parse_values("1.0").unwrap(), &schema, Some(&existing)).is_ok());
    assert!(check_primary_key_duplicates(&parse_values("3").unwrap(), &schema, Some(&existing)).is_ok());
    assert!(check_primary_key_duplicates(&parse_values("'3'").unwrap(), &schema, Some(&existing)).is_err());
}

#[test]
fn values_are_equal_by_kind_and_content() {
    let a = SqlValue::String("x".to_string());
    assert!(sql_values_equal(&a, &SqlValue::String("x".to_string())));
    assert!(!sql_values_equal(&a, &SqlValue::String("X".to_string())));
    assert!(sql_values_equal(&SqlValue::Null, &SqlValue::Null));
    assert!(!sql_values_equal(&SqlValue::Null, &SqlValue::Boolean(false)));
    assert!(sql_values_equal(&SqlValue::Integer(5), &SqlValue::Integer(5)));
    assert!(!sql_values_equal(&SqlValue::Integer(5), &SqlValue::Float("5".to_string())));
    assert!(sql_values_equal(&SqlValue::Float("5.0".to_string()), &SqlValue::Float("5.0".to_string())));
    assert!(!sql_values_equal(&SqlValue::Boolean(true), &SqlValue::Boolean(false)));
}

#[test]
fn key_messages_are_exact() {
    let error = KeyError::PrimaryKeyViolation {
        columns: vec!["a".to_string(), "b".to_string()],
        values: vec![SqlValue::Integer(2), SqlValue::String("y".to_string())],
    };
    assert_eq!(
        error.message(),
        "**Duplicate primary key detected!**\n\nPrimary key column(s): **a, b**\nValue(s): **2, 'y'**\n\n💡 **Tip:** Primary key values must be unique across all rows."
    );
    assert_eq!(
        KeyError::PrimaryKeyMissing.message(),
        "Primary key value is required but not provided in the data."
    );
}
