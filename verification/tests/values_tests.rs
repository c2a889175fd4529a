use sqlcord::display::format_sql_value_for_display_table;
use sqlcord::insert::format_sql_value_for_display;
use sqlcord::validate::get_sql_value_type_name;
use sqlcord::values::{parse_single_value, parse_sql_values, parse_values, LiteralError, SqlValue};

#[test]
fn test_parse_sql_values_basic() {
    let input = "1, 'test', true, 3.14, NULL";
    let result = parse_sql_values(input).unwrap();

    assert_eq!(result.len(), 5);
    assert!(matches!(result[0], SqlValue::Integer(1)));
    assert!(matches!(result[1], SqlValue::String(ref s) if s == "test"));
    assert!(matches!(result[2], SqlValue::Boolean(true)));
    assert!(matches!(result[3], SqlValue::Float(ref f) if (f.parse::<f64>().unwrap() - 3.14).abs() < 0.001));
    assert!(matches!(result[4], SqlValue::Null));
}

#[test]
fn test_parse_sql_values_with_whitespace() {
    let input = " 42 ,  'hello world'  , false ";
    let result = parse_sql_values(input).unwrap();

    assert_eq!(result.len(), 3);
    assert!(matches!(result[0], SqlValue::Integer(42)));
    assert!(matches!(result[1], SqlValue::String(ref s) if s == "hello world"));
    assert!(matches!(result[2], SqlValue::Boolean(false)));
}

#[test]
fn test_parse_sql_values_quoted_strings() {
    let input = r#"'simple', 'with ''escaped'' quotes'"#;
    let result = parse_sql_values(input).unwrap();

    assert_eq!(result.len(), 2);
    assert!(matches!(result[0], SqlValue::String(ref s) if s == "simple"));
    assert!(matches!(result[1], SqlValue::String(ref s) if s == "with 'escaped' quotes"));
}

#[test]
fn test_parse_sql_values_error_cases() {
    // Unterminated string
    let result = parse_sql_values("1, 'unterminated");
    assert!(result.is_err());
    assert!(result.unwrap_err().contains("Unterminated"));

    // Invalid unquoted value
    let result = parse_sql_values("1, abc, 3");
    assert!(result.is_err());
    assert!(result.unwrap_err().contains("Invalid value"));
}

#[test]
fn values_scenario_escaped_quote() {
    let values = parse_values("1, 'ab''c', true, NULL").unwrap();
    assert_eq!(
        values,
        vec![
            SqlValue::Integer(1),
            SqlValue::String("ab'c".to_string()),
            SqlValue::Boolean(true),
            SqlValue::Null,
        ]
    );
}

#[test]
fn values_one_per_field_in_order() {
    let fields = ["7", " 'a,b' ", "false", "null", "-12", "2.5e3", "''"];
    let list = fields.join(",");
    let values = parse_values(&list).unwrap();
    assert_eq!(values.len(), fields.len());
    assert_eq!(
        values,
        vec![
            SqlValue::Integer(7),
            SqlValue::String("a,b".to_string()),
            SqlValue::Boolean(false),
            SqlValue::Null,
            SqlValue::Integer(-12),
            SqlValue::Float("2.5e3".to_string()),
            SqlValue::String(String::new()),
        ]
    );
}

#[test]
fn values_keywords_in_any_case() {
    assert_eq!(
        parse_values("Null, TRUE, False, nULL").unwrap(),
        vec![SqlValue::Null, SqlValue::Boolean(true), SqlValue::Boolean(false), SqlValue::Null]
    );
}

#[test]
fn values_integers_and_their_limits() {
    assert_eq!(
        parse_values("0, +5, -0, 007, 9223372036854775807, -9223372036854775808").unwrap(),
        vec![
            SqlValue::Integer(0),
            SqlValue::Integer(5),
            SqlValue::Integer(0),
            SqlValue::Integer(7),
            SqlValue::Integer(i64::MAX),
            SqlValue::Integer(i64::MIN),
        ]
    );
    assert_eq!(
        parse_values("9223372036854775808, -9223372036854775809, 99999999999999999999999").unwrap(),
        vec![
            SqlValue::Float("9223372036854775808".to_string()),
            SqlValue::Float("-9223372036854775809".to_string()),
            SqlValue::Float("99999999999999999999999".to_string()),
        ]
    );
}

#[test]
fn values_floats_follow_the_literal_grammar() {
    let accepted = [
        "3.14", "-0.5", "+.5", "5.", "1e10", "1E-3", "1.5e+7", "inf", "-Infinity", "NaN", "+nan",
    ];
    for text in accepted {
        assert_eq!(
            parse_values(text).unwrap(),
            vec![SqlValue::Float(text.to_string())],
            "{}",
            text
        );
        assert!(text.parse::<f64>().is_ok(), "{}", text);
    }
    let refused = [".", "e5", "1e", "1e+", "1.2.3", "--1", "+", "-", "1 2", "0x10", "1_000", "infinit", "na", "1e5.0", "abc"];
    for text in refused {
        match parse_values(text) {
            Err(LiteralError::InvalidLiteral { text: got }) => assert_eq!(got, text),
            other => panic!("{}: unexpected result: {:?}", text, other),
        }
        assert!(text.parse::<i64>().is_err() && text.parse::<f64>().is_err(), "{}", text);
    }
}

#[test]
fn values_empty_fields_are_passed_over() {
    assert_eq!(
        parse_values("1,,2, ,3,").unwrap(),
        vec![SqlValue::Integer(1), SqlValue::Integer(2), SqlValue::Integer(3)]
    );
}

#[test]
fn values_empty_list_is_refused() {
    for text in ["", "   ", ",", " , ,"] {
        match parse_values(text) {
            Err(LiteralError::NoValuesProvided) => {}
            other => panic!("{:?}: unexpected result: {:?}", text, other),
        }
    }
    assert!(parse_sql_values("").unwrap_err().contains("No values provided"));
}

#[test]
fn values_unterminated_string_is_refused() {
    for text in ["'", "'abc", "1, 'a''", "'a''''"] {
        match parse_values(text) {
            Err(LiteralError::UnterminatedString) => {}
            other => panic!("{:?}: unexpected result: {:?}", text, other),
        }
    }
}

#[test]
fn values_first_error_wins() {
    match parse_values("abc, 'open") {
        Err(LiteralError::InvalidLiteral { text }) => assert_eq!(text, "abc"),
        other => panic!("unexpected result: {:?}", other),
    }
}

#[test]
fn values_text_around_a_string_is_dropped() {
    assert_eq!(
        parse_values("junk 'a' more junk 'b', 2").unwrap(),
        vec![SqlValue::String("a".to_string()), SqlValue::Integer(2)]
    );
    assert_eq!(
        parse_values("'a'1").unwrap(),
        vec![SqlValue::String("a".to_string())]
    );
}

#[test]
fn values_strings_keep_their_content() {
    assert_eq!(
        parse_values("'  spaced  ', 'null', '1', 'back\\slash', 'é,ü'").unwrap(),
        vec![
            SqlValue::String("  spaced  ".to_string()),
            SqlValue::String("null".to_string()),
            SqlValue::String("1".to_string()),
            SqlValue::String("back\\slash".to_string()),
            SqlValue::String("é,ü".to_string()),
        ]
    );
    assert_eq!(
        parse_values("''''").unwrap(),
        vec![SqlValue::String("'".to_string())]
    );
    assert_eq!(
        parse_values("'a'''").unwrap(),
        vec![SqlValue::String("a'".to_string())]
    );
}

#[test]
fn single_value_is_trimmed_and_classified() {
    assert_eq!(parse_single_value("  42 ").unwrap(), SqlValue::Integer(42));
    assert_eq!(parse_single_value("NULL").unwrap(), SqlValue::Null);
    assert_eq!(parse_single_value("tRuE").unwrap(), SqlValue::Boolean(true));
    assert_eq!(parse_single_value("1.5").unwrap(), SqlValue::Float("1.5".to_string()));
    assert!(matches!(parse_single_value("   "), Err(LiteralError::EmptyValue)));
    assert!(matches!(parse_single_value("'a'"), Err(LiteralError::InvalidLiteral { .. })));
}

#[test]
fn literal_messages_are_exact() {
    assert_eq!(
        LiteralError::UnterminatedString.message(),
        "❌ **Unterminated string** - Missing closing quote\n\n**Example:** `'John'` instead of `'John`"
    );
    assert_eq!(
        LiteralError::EmptyValue.message(),
        "❌ **Empty value** - Use NULL for empty values"
    );
    assert_eq!(
        parse_sql_values("x").unwrap_err(),
        "❌ **Invalid value:** `x`\n\n**Valid formats:**\n• Numbers: `42`, `3.14`\n• Booleans: `true`, `false`\n• Strings: `'text'`\n• NULL: `NULL`"
    );
}

#[test]
fn values_render_as_literals() {
    assert_eq!(SqlValue::Integer(-42).render(), "-42");
    assert_eq!(SqlValue::Integer(0).render(), "0");
    assert_eq!(SqlValue::Integer(i64::MIN).render(), "-9223372036854775808");
    assert_eq!(SqlValue::Integer(i64::MAX).render(), "9223372036854775807");
    assert_eq!(SqlValue::Float("3.14".to_string()).render(), "3.14");
    assert_eq!(SqlValue::String("it's".to_string()).render(), "'it's'");
    assert_eq!(SqlValue::Boolean(true).render(), "true");
    assert_eq!(SqlValue::Boolean(false).render(), "false");
    assert_eq!(SqlValue::Null.render(), "NULL");
    assert_eq!(SqlValue::Null.kind_name(), "null");
    assert_eq!(SqlValue::Float("1e3".to_string()).kind_name(), "number");
    assert_eq!(SqlValue::Integer(1).kind_name(), "integer");
    assert_eq!(get_sql_value_type_name(&SqlValue::Boolean(true)), "boolean");
    assert_eq!(get_sql_value_type_name(&SqlValue::String(String::new())), "string");
    assert_eq!(format_sql_value_for_display(&SqlValue::String("a".to_string())), "'a'");
    assert_eq!(format_sql_value_for_display_table(&SqlValue::Null), "NULL");
}
