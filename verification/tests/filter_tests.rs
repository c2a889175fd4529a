use sqlcord::filter::{
    evaluate_single_condition, evaluate_where_condition, format_sql_value_for_comparison,
    parse_and_expression, parse_or_expression, parse_primary_expression, split_by_operator,
};
use sqlcord::schema::{parse_schema, ColumnDefinition};
use sqlcord::values::{parse_values, SqlValue};

fn people() -> Vec<ColumnDefinition> {
    parse_schema("name VARCHAR(20), age VARCHAR(3), city VARCHAR(20)").unwrap()
}

fn person(name: &str, age: &str, city: &str) -> Vec<SqlValue> {
    vec![
        SqlValue::String(name.to_string()),
        SqlValue::String(age.to_string()),
        SqlValue::String(city.to_string()),
    ]
}

#[test]
fn where_scenario_group_and_condition() {
    let schema = people();
    let clause = "(name='John' OR name='Jane') AND age='25'";
    for name in ["John", "Jane", "Jack"] {
        for age in ["25", "26"] {
            let expected = (name == "John" || name == "Jane") && age == "25";
            assert_eq!(
                evaluate_where_condition(&person(name, age, "x"), &schema, clause),
                expected,
                "{} {}",
                name,
                age
            );
        }
    }
}

#[test]
fn where_and_is_conjunction_and_or_is_disjunction() {
    let schema = parse_schema("a BOOLEAN, b BOOLEAN").unwrap();
    for a in [true, false] {
        for b in [true, false] {
            let row = vec![SqlValue::Boolean(a), SqlValue::Boolean(b)];
            assert_eq!(evaluate_where_condition(&row, &schema, "a=true AND b=true"), a && b);
            assert_eq!(evaluate_where_condition(&row, &schema, "a=true OR b=true"), a || b);
            assert_eq!(
                evaluate_where_condition(&row, &schema, "(a=true) AND (b=true OR a=false)"),
                a && (b || !a)
            );
        }
    }
}

#[test]
fn where_and_binds_tighter_than_or() {
    let schema = parse_schema("a BOOLEAN, b BOOLEAN, c BOOLEAN").unwrap();
    let grouped_left = "(a=true OR b=true) AND c=true";
    let grouped_right = "a=true OR (b=true AND c=true)";
    let plain = "a=true OR b=true AND c=true";
    let mut differ = false;
    for a in [true, false] {
        for b in [true, false] {
            for c in [true, false] {
                let row = vec![SqlValue::Boolean(a), SqlValue::Boolean(b), SqlValue::Boolean(c)];
                let left = evaluate_where_condition(&row, &schema, grouped_left);
                let right = evaluate_where_condition(&row, &schema, grouped_right);
                assert_eq!(left, (a || b) && c);
                assert_eq!(right, a || (b && c));
                assert_eq!(evaluate_where_condition(&row, &schema, plain), right);
                differ = differ || left != right;
            }
        }
    }
    assert!(differ);
    let row = vec![SqlValue::Boolean(true), SqlValue::Boolean(false), SqlValue::Boolean(false)];
    assert!(!evaluate_where_condition(&row, &schema, grouped_left));
    assert!(evaluate_where_condition(&row, &schema, grouped_right));
    let row = vec![SqlValue::Boolean(true), SqlValue::Boolean(false), SqlValue::Boolean(true)];
    assert!(evaluate_where_condition(&row, &schema, grouped_left));
    assert!(evaluate_where_condition(&row, &schema, grouped_right));
}

#[test]
fn where_unknown_column_is_false() {
    let schema = people();
    let row = person("John", "25", "Oslo");
    assert!(!evaluate_where_condition(&row, &schema, "nobody='John'"));
    assert!(!evaluate_where_condition(&row, &schema, "name"));
    assert!(!evaluate_where_condition(&row, &schema, ""));
    assert!(!evaluate_where_condition(&row, &schema, "("));
    assert!(!evaluate_where_condition(&row, &schema, "()"));
    assert!(!evaluate_where_condition(&row, &schema, " AND "));
    assert!(evaluate_where_condition(&row, &schema, "name='John' OR nobody='x'"));
    assert!(!evaluate_where_condition(&row, &[], "name='John'"));
}

#[test]
fn where_compares_the_literal_text() {
    let schema = parse_schema("n INT, f FLOAT, s VARCHAR(9), b BOOLEAN, z INT").unwrap();
    let row = parse_values("25, 2.50, 'x', true, NULL").unwrap();
    assert!(evaluate_where_condition(&row, &schema, "n=25"));
    assert!(!evaluate_where_condition(&row, &schema, "n='25'"));
    assert!(!evaluate_where_condition(&row, &schema, "n=25.0"));
    assert!(evaluate_where_condition(&row, &schema, "f=2.50"));
    assert!(!evaluate_where_condition(&row, &schema, "f=2.5"));
    assert!(evaluate_where_condition(&row, &schema, "s='x'"));
    assert!(!evaluate_where_condition(&row, &schema, "s=x"));
    assert!(evaluate_where_condition(&row, &schema, "b=true"));
    assert!(evaluate_where_condition(&row, &schema, "z=NULL"));
    assert!(!evaluate_where_condition(&row, &schema, "z=null"));
    assert!(evaluate_where_condition(&row, &schema, "  n  =  25  "));
    assert_eq!(format_sql_value_for_comparison(&SqlValue::Null), "NULL");
    assert_eq!(format_sql_value_for_comparison(&SqlValue::String("a".to_string())), "'a'");
}

#[test]
fn where_row_shorter_than_schema_is_false() {
    let schema = people();
    let row = vec![SqlValue::String("John".to_string())];
    assert!(evaluate_where_condition(&row, &schema, "name='John'"));
    assert!(!evaluate_where_condition(&row, &schema, "age='25'"));
}

#[test]
fn where_duplicate_names_resolve_to_the_first() {
    let schema = parse_schema("a INT, a INT").unwrap();
    let row = vec![SqlValue::Integer(1), SqlValue::Integer(2)];
    assert!(evaluate_where_condition(&row, &schema, "a=1"));
    assert!(!evaluate_where_condition(&row, &schema, "a=2"));
}

#[test]
fn where_nested_groups() {
    let schema = people();
    let row = person("Ann", "30", "Rome");
    assert!(evaluate_where_condition(&row, &schema, "((name='Ann'))"));
    assert!(evaluate_where_condition(
        &row,
        &schema,
        "(name='Bob' OR (age='30' AND (city='Rome' OR city='Oslo')))"
    ));
    assert!(!evaluate_where_condition(
        &row,
        &schema,
        "(name='Bob' OR (age='30' AND (city='Paris' OR city='Oslo')))"
    ));
}

#[test]
fn split_respects_parentheses() {
    assert_eq!(
        split_by_operator("a=1 AND (b=2 AND c=3) AND d=4", " AND "),
        vec!["a=1", "(b=2 AND c=3)", "d=4"]
    );
    assert_eq!(
        split_by_operator("(a=1 OR b=2) AND c=3", " OR "),
        vec!["(a=1 OR b=2) AND c=3"]
    );
    assert_eq!(split_by_operator("a OR b OR c", " OR "), vec!["a", "b", "c"]);
}

#[test]
fn split_drops_blank_pieces_and_keeps_a_blank_whole() {
    assert_eq!(split_by_operator(" OR a OR  OR b OR ", " OR "), vec!["a", "b"]);
    assert_eq!(split_by_operator(" OR ", " OR "), vec![" OR "]);
    assert_eq!(split_by_operator("", " OR "), vec![""]);
    assert_eq!(split_by_operator("  ", " AND "), vec!["  "]);
    assert_eq!(split_by_operator("a AND b", ""), vec!["a AND b"]);
}

#[test]
fn split_with_unbalanced_parentheses() {
    assert_eq!(split_by_operator("a) OR b", " OR "), vec!["a) OR b"]);
    assert_eq!(split_by_operator("(a OR b", " OR "), vec!["(a OR b"]);
    assert_eq!(split_by_operator("a)( OR b", " OR "), vec!["a)(", "b"]);
}

#[test]
fn expression_levels() {
    let schema = people();
    let row = person("Ann", "30", "Rome");
    assert!(parse_or_expression(&row, &schema, "name='x' OR age='30'"));
    assert!(!parse_and_expression(&row, &schema, "name='Ann' AND age='31'"));
    assert!(parse_and_expression(&row, &schema, "name='Ann' AND age='30'"));
    assert!(parse_primary_expression(&row, &schema, "(name='x' OR age='30')"));
    assert!(parse_primary_expression(&row, &schema, "city='Rome'"));
    assert!(evaluate_single_condition(&row, &schema, "city = 'Rome'"));
    assert!(!evaluate_single_condition(&row, &schema, "city = Rome"));
    assert!(evaluate_single_condition(&row, &schema, "city='Rome'"));
}
