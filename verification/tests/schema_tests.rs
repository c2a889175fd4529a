use sqlcord::schema::{
    parse_column_definitions, parse_schema, parse_schema_from_topic, render_schema, schema_topic,
    normalize_data_type, ColumnDefinition, DataType, SchemaError, SizeProblem, TableSchema,
};

#[test]
fn test_parse_column_definitions() {
    let schema = "PersonID int, LastName varchar(255), FirstName varchar(255), Address varchar(255), City varchar(255)";
    let columns = parse_column_definitions(schema).unwrap();

    assert_eq!(columns.len(), 5);
    assert_eq!(columns[0].name, "PersonID");
    assert_eq!(columns[0].data_type.as_str(), "INT");
    assert_eq!(columns[1].name, "LastName");
    assert_eq!(columns[1].data_type.as_str(), "VARCHAR");
    assert_eq!(columns[1].size, Some(255));
}

#[test]
fn test_varchar_requires_size() {
    let schema = "name VARCHAR";
    let result = parse_column_definitions(schema);

    assert!(result.is_err());
    let error = result.unwrap_err();
    assert!(error.contains("VARCHAR") && error.contains("requires a size specification"));
}

#[test]
fn test_char_requires_size() {
    let schema = "code CHAR";
    let result = parse_column_definitions(schema);

    assert!(result.is_err());
    let error = result.unwrap_err();
    assert!(error.contains("CHAR") && error.contains("requires a size specification"));
}

#[test]
fn test_boolean_rejects_size() {
    let schema = "active BOOLEAN(1)";
    let result = parse_column_definitions(schema);

    assert!(result.is_err());
    let error = result.unwrap_err();
    assert!(error.contains("BOOLEAN") && error.contains("does not support size specification"));
}

#[test]
fn test_date_types_reject_size() {
    let test_cases = vec![
        "birth_date DATE(10)",
        "login_time TIME(8)",
        "created_at DATETIME(20)",
    ];

    for case in test_cases {
        let result = parse_column_definitions(case);
        assert!(result.is_err(), "Expected error for: {}", case);
        let error = result.unwrap_err();
        assert!(error.contains("does not support size specification"), "Error should mention size specification for: {}", case);
    }
}

#[test]
fn test_int_rejects_size() {
    let schema = "id INT(11)";
    let result = parse_column_definitions(schema);

    assert!(result.is_err());
    let error = result.unwrap_err();
    assert!(error.contains("INT") && error.contains("does not support size specification"));
}

#[test]
fn test_decimal_with_valid_size() {
    let schema = "price DECIMAL(10), amount FLOAT(7), total DOUBLE(15)";
    let columns = parse_column_definitions(schema).unwrap();

    assert_eq!(columns.len(), 3);
    assert_eq!(columns[0].data_type.as_str(), "DECIMAL");
    assert_eq!(columns[0].size, Some(10));
    assert_eq!(columns[1].data_type.as_str(), "FLOAT");
    assert_eq!(columns[1].size, Some(7));
    assert_eq!(columns[2].data_type.as_str(), "DOUBLE");
    assert_eq!(columns[2].size, Some(15));
}

#[test]
fn test_decimal_with_invalid_size() {
    let test_cases = vec![
        "price DECIMAL(0)",
        "amount FLOAT(66)",
        "total DOUBLE(100)",
    ];

    for case in test_cases {
        let result = parse_column_definitions(case);
        assert!(result.is_err(), "Expected error for: {}", case);
    }
}

#[test]
fn test_varchar_size_validation() {
    // Test zero size
    let result = parse_column_definitions("name VARCHAR(0)");
    assert!(result.is_err());
    assert!(result.unwrap_err().contains("size must be greater than 0"));

    // Test too large size
    let result = parse_column_definitions("description VARCHAR(70000)");
    assert!(result.is_err());
    let error = result.unwrap_err();
    assert!(error.contains("size") && error.contains("too large"));

    // Test valid size
    let result = parse_column_definitions("name VARCHAR(255)");
    assert!(result.is_ok());
}

#[test]
fn test_invalid_data_type() {
    let schema = "id INT, name INVALID_TYPE";
    let result = parse_column_definitions(schema);

    assert!(result.is_err());
    let error = result.unwrap_err();
    assert!(error.contains("INVALID_TYPE"));
    assert!(error.contains("not a valid data type"));
}

#[test]
fn schema_scenario_three_columns() {
    let columns = parse_schema("id INT, name VARCHAR(5), active BOOLEAN").unwrap();
    assert_eq!(columns.len(), 3);
    assert_eq!(columns[0].name, "id");
    assert_eq!(columns[0].data_type, DataType::Int);
    assert_eq!(columns[0].size, None);
    assert_eq!(columns[1].name, "name");
    assert_eq!(columns[1].data_type, DataType::Varchar);
    assert_eq!(columns[1].size, Some(5));
    assert_eq!(columns[2].data_type, DataType::Boolean);
    assert!(columns.iter().all(|c| c.nullable && !c.primary_key));
}

#[test]
fn schema_int_with_size_is_refused_with_typed_error() {
    match parse_schema("id INT(11)") {
        Err(SchemaError::InvalidSize { column, data_type, problem }) => {
            assert_eq!(column, "id");
            assert_eq!(data_type, DataType::Int);
            assert_eq!(problem, SizeProblem::NotAllowed(11));
        }
        other => panic!("unexpected result: {:?}", other),
    }
}

#[test]
fn schema_empty_text_declares_nothing() {
    assert_eq!(parse_schema("").unwrap().len(), 0);
    assert_eq!(parse_schema("   \t ").unwrap().len(), 0);
    assert_eq!(parse_schema(" , ,").unwrap().len(), 0);
}

#[test]
fn schema_constraints_are_recognised_in_any_case_and_order() {
    let columns = parse_schema("id int primary key not null, note text(10) anything NOT  NULL").unwrap();
    assert!(columns[0].primary_key);
    assert!(!columns[0].nullable);
    assert_eq!(columns[1].data_type, DataType::Varchar);
    assert!(!columns[1].primary_key);
    assert!(!columns[1].nullable);
}

#[test]
fn schema_constraint_word_alone_is_ignored() {
    let columns = parse_schema("a INT NOT, b INT PRIMARY, c INT NULL KEY").unwrap();
    assert!(columns.iter().all(|c| c.nullable && !c.primary_key));
}

#[test]
fn schema_column_named_like_a_keyword_keeps_its_constraint() {
    let columns = parse_schema("NOT INT NOT NULL").unwrap();
    assert_eq!(columns[0].name, "NOT");
    assert!(!columns[0].nullable);
}

#[test]
fn schema_synonyms_are_normalised() {
    let cases = [
        ("integer", DataType::Int),
        ("String", DataType::Varchar),
        ("TEXT", DataType::Varchar),
        ("character", DataType::Char),
        ("bool", DataType::Boolean),
        ("real", DataType::Float),
        ("double", DataType::Double),
        ("numeric", DataType::Decimal),
        ("date", DataType::Date),
        ("time", DataType::Time),
        ("timestamp", DataType::DateTime),
        ("DateTime", DataType::DateTime),
    ];
    for (name, expected) in cases {
        assert_eq!(normalize_data_type(name), Some(expected), "{}", name);
    }
    assert_eq!(normalize_data_type("blob"), None);
    assert_eq!(normalize_data_type(""), None);
}

#[test]
fn schema_single_word_is_an_invalid_column() {
    match parse_schema("id INT, lonely") {
        Err(SchemaError::InvalidColumn { text }) => assert_eq!(text, "lonely"),
        other => panic!("unexpected result: {:?}", other),
    }
    let message = parse_column_definitions("lonely").unwrap_err();
    assert_eq!(
        message,
        "Invalid column definition: 'lonely'. Expected format: 'column_name data_type'"
    );
}

#[test]
fn schema_unknown_type_names_type_and_column() {
    match parse_schema("id INT, name Blob(3)") {
        Err(SchemaError::UnknownType { type_word, column }) => {
            assert_eq!(type_word, "Blob");
            assert_eq!(column, "name");
        }
        other => panic!("unexpected result: {:?}", other),
    }
}

#[test]
fn schema_size_problems_are_told_apart() {
    let problem = |text: &str| match parse_schema(text) {
        Err(SchemaError::InvalidSize { problem, .. }) => problem,
        other => panic!("unexpected result: {:?}", other),
    };
    assert_eq!(problem("a VARCHAR"), SizeProblem::Missing);
    assert_eq!(problem("a CHAR(0)"), SizeProblem::Zero);
    assert_eq!(problem("a VARCHAR(65536)"), SizeProblem::TooLarge(65536));
    assert_eq!(problem("a DECIMAL(66)"), SizeProblem::TooLarge(66));
    assert_eq!(problem("a DATE(1)"), SizeProblem::NotAllowed(1));
    assert!(parse_schema("a VARCHAR(65535), b DECIMAL(65), c FLOAT").is_ok());
}

#[test]
fn schema_size_that_is_no_number_leaves_the_type_word_whole() {
    match parse_schema("a VARCHAR(x)") {
        Err(SchemaError::UnknownType { type_word, .. }) => assert_eq!(type_word, "VARCHAR(x)"),
        other => panic!("unexpected result: {:?}", other),
    }
    match parse_schema("a )INT(") {
        Err(SchemaError::UnknownType { type_word, .. }) => assert_eq!(type_word, ")INT("),
        other => panic!("unexpected result: {:?}", other),
    }
    match parse_schema("a VARCHAR(99999999999)") {
        Err(SchemaError::UnknownType { .. }) => {}
        other => panic!("unexpected result: {:?}", other),
    }
    assert_eq!(parse_schema("a VARCHAR(+7)").unwrap()[0].size, Some(7));
    assert_eq!(parse_schema("a VARCHAR(007)").unwrap()[0].size, Some(7));
}

#[test]
fn schema_first_error_wins() {
    match parse_schema("a BLOB, b VARCHAR") {
        Err(SchemaError::UnknownType { .. }) => {}
        other => panic!("unexpected result: {:?}", other),
    }
}

#[test]
fn schema_messages_are_exact() {
    assert_eq!(
        parse_column_definitions("name VARCHAR(0)").unwrap_err(),
        "**VARCHAR** size must be greater than 0 for column **name**\n\n**Examples:** `name VARCHAR(1)`, `name CHAR(10)`"
    );
    assert_eq!(
        parse_column_definitions("p FLOAT(66)").unwrap_err(),
        "**FLOAT** precision 66 is too large for column **p** (maximum: 65)\n\n**Suggestion:** Use a smaller precision like `p DECIMAL(18)` for most financial calculations"
    );
    assert_eq!(
        parse_column_definitions("id INT(11)").unwrap_err(),
        "**INT** does not support size specification for column **id**\n\n**Correct usage:** `id INT`\n**Invalid usage:** `id INT(11)`\n\n**Explanation:** INT values are fixed-size 64-bit integers and don't need size limits"
    );
}

fn column(name: &str, data_type: DataType, size: Option<u32>, nullable: bool, primary_key: bool) -> ColumnDefinition {
    ColumnDefinition { name: name.to_string(), data_type, size, nullable, primary_key }
}

#[test]
fn schema_rendering_is_canonical() {
    let columns = vec![
        column("id", DataType::Int, None, false, true),
        column("name", DataType::Varchar, Some(50), true, false),
        column("price", DataType::Decimal, Some(10), false, false),
        column("born", DataType::Date, None, true, true),
    ];
    assert_eq!(columns[0].render(), "id INT NOT NULL PRIMARY KEY");
    assert_eq!(
        render_schema(&columns),
        "id INT NOT NULL PRIMARY KEY, name VARCHAR(50), price DECIMAL(10) NOT NULL, born DATE PRIMARY KEY"
    );
    assert_eq!(render_schema(&Vec::new()), "");
}

#[test]
fn schema_rendering_parses_back_to_the_same_columns() {
    let texts = [
        "id int primary key, name string(12) not null, score real, at timestamp",
        "a INT",
        "",
        "x char(1) NOT NULL PRIMARY KEY extra words, y double(65)",
    ];
    for text in texts {
        let first = parse_schema(text).unwrap();
        let rendered = render_schema(&first);
        let second = parse_schema(&rendered).unwrap();
        assert_eq!(first.len(), second.len(), "{}", text);
        for (a, b) in first.iter().zip(second.iter()) {
            assert_eq!(a.name, b.name);
            assert_eq!(a.data_type, b.data_type);
            assert_eq!(a.size, b.size);
            assert_eq!(a.nullable, b.nullable);
            assert_eq!(a.primary_key, b.primary_key);
        }
        assert_eq!(render_schema(&second), rendered);
    }
}

#[test]
fn table_rendering_lists_the_columns() {
    let table = TableSchema {
        name: "users".to_string(),
        columns: vec![
            column("id", DataType::Int, None, false, true),
            column("name", DataType::Varchar, Some(50), true, false),
        ],
    };
    assert_eq!(
        table.render(),
        "CREATE TABLE users (\n    id INT NOT NULL PRIMARY KEY,\n    name VARCHAR(50)\n)"
    );
    let empty = TableSchema { name: "t".to_string(), columns: Vec::new() };
    assert_eq!(empty.render(), "CREATE TABLE t (\n\n)");
}

#[test]
fn topic_without_declaration_has_no_schema() {
    assert_eq!(parse_schema_from_topic("just a channel").unwrap().len(), 0);
    assert_eq!(parse_schema_from_topic("").unwrap().len(), 0);
}

#[test]
fn topic_in_current_and_legacy_form() {
    let current = parse_schema_from_topic("Table users. Schema: id INT PRIMARY KEY, name VARCHAR(20)").unwrap();
    assert_eq!(current.len(), 2);
    assert!(current[0].primary_key);
    assert_eq!(current[1].size, Some(20));

    let legacy = parse_schema_from_topic("Schema: id: INT, name: VARCHAR(20)").unwrap();
    assert_eq!(legacy.len(), 2);
    assert_eq!(legacy[0].name, "id");
    assert_eq!(legacy[0].data_type, DataType::Int);
    assert_eq!(legacy[1].name, "name");
    assert_eq!(legacy[1].size, Some(20));
}

#[test]
fn topic_with_refused_declaration() {
    assert!(parse_schema_from_topic("Schema: name VARCHAR").is_err());
}

#[test]
fn topic_of_a_schema_reads_back() {
    let columns = parse_schema("id INT PRIMARY KEY, name VARCHAR(20) NOT NULL").unwrap();
    let topic = schema_topic(&columns);
    assert_eq!(topic, "Schema: id INT PRIMARY KEY, name VARCHAR(20) NOT NULL");
    let back = parse_schema_from_topic(&topic).unwrap();
    assert_eq!(back.len(), 2);
    assert!(back[0].primary_key);
    assert!(!back[1].nullable);
}
