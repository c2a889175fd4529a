use sqlcord::schema::{parse_schema, ColumnDefinition, DataType};
use sqlcord::validate::{
    generate_example_values, validate, validate_sql_value_type, validate_values_against_schema,
    Violation,
};
use sqlcord::values::SqlValue;

#[test]
fn test_validate_values_against_schema() {
    let schema = vec![
        ColumnDefinition {
            name: "id".to_string(),
            data_type: DataType::Int,
            size: None,
            nullable: false,
            primary_key: true,
        },
        ColumnDefinition {
            name: "name".to_string(),
            data_type: DataType::Varchar,
            size: Some(10),
            nullable: false,
            primary_key: false,
        },
    ];

    // Valid values
    let values = vec![
        SqlValue::Integer(1),
        SqlValue::String("John".to_string()),
    ];
    assert!(validate_values_against_schema(&values, &schema).is_ok());

    // Too few values
    let values = vec![SqlValue::Integer(1)];
    let result = validate_values_against_schema(&values, &schema);
    assert!(result.is_err());
    assert!(result.unwrap_err().contains("Expected 2 values"));

    // Wrong type
    let values = vec![
        SqlValue::String("not a number".to_string()),
        SqlValue::String("John".to_string()),
    ];
    let result = validate_values_against_schema(&values, &schema);
    assert!(result.is_err());
    assert!(result.unwrap_err().contains("Type mismatch"));

    // String too long
    let values = vec![
        SqlValue::Integer(1),
        SqlValue::String("This string is way too long".to_string()),
    ];
    let result = validate_values_against_schema(&values, &schema);
    assert!(result.is_err());
    assert!(result.unwrap_err().contains("String too long"));
}

fn text(s: &str) -> SqlValue {
    SqlValue::String(s.to_string())
}

#[test]
fn validate_scenario_string_too_long() {
    let schema = parse_schema("id INT, name VARCHAR(5), active BOOLEAN").unwrap();
    let row = vec![SqlValue::Integer(1), text("toolong"), SqlValue::Boolean(true)];
    match validate(&row, &schema) {
        Err(Violation::StringTooLong { column, position, len, max, text }) => {
            assert_eq!(column, "name");
            assert_eq!(position, 2);
            assert_eq!(len, 7);
            assert_eq!(max, 5);
            assert_eq!(text, "toolong");
        }
        other => panic!("unexpected result: {:?}", other),
    }
}

#[test]
fn validate_rejects_every_other_length() {
    let schema = parse_schema("a INT, b INT, c INT").unwrap();
    for n in 0..7usize {
        let row: Vec<SqlValue> = (0..n).map(|i| SqlValue::Integer(i as i64)).collect();
        let result = validate(&row, &schema);
        if n == 3 {
            assert!(result.is_ok());
        } else {
            match result {
                Err(Violation::ArityMismatch { expected, actual }) => {
                    assert_eq!(expected, 3);
                    assert_eq!(actual, n);
                }
                other => panic!("{}: unexpected result: {:?}", n, other),
            }
        }
    }
}

#[test]
fn validate_without_schema_accepts_any_row() {
    let schema: Vec<ColumnDefinition> = Vec::new();
    assert!(validate(&[], &schema).is_ok());
    assert!(validate(&[SqlValue::Null, text("x"), SqlValue::Integer(3)], &schema).is_ok());
}

#[test]
fn validate_nullability() {
    let schema = parse_schema("a INT NOT NULL, b INT").unwrap();
    assert!(validate(&[SqlValue::Integer(1), SqlValue::Null], &schema).is_ok());
    match validate(&[SqlValue::Null, SqlValue::Null], &schema) {
        Err(Violation::NullNotAllowed { column, position, data_type }) => {
            assert_eq!(column, "a");
            assert_eq!(position, 1);
            assert_eq!(data_type, DataType::Int);
        }
        other => panic!("unexpected result: {:?}", other),
    }
}

#[test]
fn validate_types() {
    let schema = parse_schema(
        "i INT, v VARCHAR(3), c CHAR(2), b BOOLEAN, f FLOAT, d DOUBLE, m DECIMAL(4), day DATE, t TIME, at DATETIME",
    )
    .unwrap();
    let good = vec![
        SqlValue::Integer(1),
        text("abc"),
        text(""),
        SqlValue::Boolean(false),
        SqlValue::Integer(2),
        SqlValue::Float("2.5".to_string()),
        SqlValue::Float("1e3".to_string()),
        text("2024-02-29"),
        text("23:59:59.5Z"),
        text("2024-02-29T23:59:59+01:00"),
    ];
    assert!(validate(&good, &schema).is_ok());

    let wrong: Vec<(usize, SqlValue)> = vec![
        (0, SqlValue::Float("1.0".to_string())),
        (0, text("1")),
        (1, SqlValue::Integer(1)),
        (2, SqlValue::Boolean(true)),
        (3, SqlValue::Integer(1)),
        (4, text("1.5")),
        (5, SqlValue::Boolean(true)),
        (6, text("x")),
        (7, text("2023-02-29")),
        (7, SqlValue::Integer(20240229)),
        (8, text("24:00:00")),
        (9, text("2024-02-29 23:59:59")),
    ];
    for (index, value) in wrong {
        let mut row = good.clone();
        row[index] = value.clone();
        match validate(&row, &schema) {
            Err(Violation::TypeMismatch { column, position, expected, actual }) => {
                assert_eq!(column, schema[index].name);
                assert_eq!(position, index + 1);
                assert_eq!(expected, schema[index].data_type);
                assert_eq!(actual, value);
            }
            other => panic!("{} {:?}: unexpected result: {:?}", index, value, other),
        }
    }
}

#[test]
fn validate_length_counts_characters() {
    let schema = parse_schema("v VARCHAR(3), f FLOAT(2)").unwrap();
    assert!(validate(&[text("äöü"), SqlValue::Integer(123456)], &schema).is_ok());
    assert!(matches!(
        validate(&[text("äöüx"), SqlValue::Integer(1)], &schema),
        Err(Violation::StringTooLong { len: 4, max: 3, .. })
    ));
}

#[test]
fn validate_first_violation_wins() {
    let schema = parse_schema("a INT NOT NULL, b BOOLEAN, c VARCHAR(1)").unwrap();
    let row = vec![SqlValue::Integer(1), SqlValue::Integer(2), text("long")];
    assert!(matches!(
        validate(&row, &schema),
        Err(Violation::TypeMismatch { position: 2, .. })
    ));
}

#[test]
fn validate_single_value() {
    let column = ColumnDefinition {
        name: "n".to_string(),
        data_type: DataType::Time,
        size: None,
        nullable: true,
        primary_key: false,
    };
    assert!(validate_sql_value_type(&SqlValue::Null, &column, 4).is_ok());
    assert!(validate_sql_value_type(&text("10:00:00"), &column, 4).is_ok());
    assert!(matches!(
        validate_sql_value_type(&text("10:00"), &column, 4),
        Err(Violation::TypeMismatch { position: 4, .. })
    ));
}

#[test]
fn violation_messages_are_exact() {
    let schema = parse_schema("id INT NOT NULL, name VARCHAR(5), born DATE").unwrap();
    assert_eq!(
        validate_values_against_schema(&[SqlValue::Integer(1)], &schema).unwrap_err(),
        "❌ **Value count mismatch:** Expected 3 values for columns, got 1\n\n📋 **Expected columns:** id, name, born\n\n**Example:** 42, 'text', '2023-12-25'"
    );
    assert_eq!(
        validate_values_against_schema(&[SqlValue::Null, text("a"), text("2024-01-01")], &schema).unwrap_err(),
        "❌ **NULL not allowed** for column **id** (position 1)\n\n📋 **Column:** id INT\n**Required:** This column cannot be NULL"
    );
    assert_eq!(
        validate_values_against_schema(&[text("x"), text("a"), text("2024-01-01")], &schema).unwrap_err(),
        "❌ **Type mismatch** for column **id** (position 1)\n\nExpected: **integer**\nGot: **string**\n\n**Example:** `42` instead of `'x'`"
    );
    assert_eq!(
        validate_values_against_schema(
            &[SqlValue::Integer(1), text("abcdefghijklmnopqrstuvwxyz"), text("2024-01-01")],
            &schema
        )
        .unwrap_err(),
        "❌ **String too long** for column **name** (position 2)\n\nLength: 26 characters\nMaximum: 5 characters\n\n📏 **Current:** 'abcdefghijklmnopqrst...'\n💡 **Tip:** Shorten the text or increase the column size"
    );
    assert_eq!(
        validate_values_against_schema(&[SqlValue::Integer(1), text("a"), text("yesterday")], &schema).unwrap_err(),
        "❌ **Invalid DATE format** for column **born** (position 3)\n\nExpected: **ISO 8601 date** (YYYY-MM-DD)\nGot: **'yesterday'**\n\n**Valid examples:**\n• `'2025-08-19'`\n• `'2023-12-25'`\n• `'2024-02-29'` (leap year)"
    );
    assert_eq!(
        validate_values_against_schema(&[SqlValue::Integer(1), text("a"), SqlValue::Boolean(true)], &schema).unwrap_err(),
        "❌ **Type mismatch** for column **born** (position 3)\n\nExpected: **string** (ISO date format)\nGot: **boolean**\n\n**Examples:**\n• DATE: `'2023-12-25'`\n• TIME: `'14:30:00'`\n• DATETIME: `'2023-12-25T14:30:00Z'`"
    );
}

#[test]
fn example_values_follow_the_types() {
    let schema = parse_schema("a INT, b CHAR(1), c BOOL, d REAL, e DATE, f TIME, g TIMESTAMP").unwrap();
    assert_eq!(
        generate_example_values(&schema),
        "42, 'text', true, 3.14, '2023-12-25', '14:30:00', '2023-12-25T14:30:00Z'"
    );
    assert_eq!(generate_example_values(&[]), "");
}
