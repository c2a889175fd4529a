use sqlcord::commands::{
    register, register_all_sql_commands, register_create_subcommands, register_drop_subcommands,
    Command,
};

#[test]
fn register_announces_the_command() {
    assert_eq!(register(Command::CreateDb).unwrap(), "Registering CREATE DB command");
    assert_eq!(register(Command::DropTable).unwrap(), "Registering DROP TABLE command");
    assert_eq!(register(Command::Explain).unwrap(), "Registering EXPLAIN command");
}

#[test]
fn create_subcommands_are_registered_in_order() {
    assert_eq!(
        register_create_subcommands().unwrap(),
        vec![
            "Starting dynamic registration of CREATE subcommands...",
            "Registering DB command...",
            "Registering CREATE DB command",
            "DB command registered successfully",
            "Registering TABLE command...",
            "Registering CREATE TABLE command",
            "TABLE command registered successfully",
            "All CREATE subcommands registered successfully!",
        ]
    );
}

#[test]
fn drop_subcommands_are_registered_in_order() {
    assert_eq!(
        register_drop_subcommands().unwrap(),
        vec![
            "Starting dynamic registration of DROP subcommands...",
            "Registering DROP DB command...",
            "Registering DROP DB command",
            "DROP DB command registered successfully",
            "Registering DROP TABLE command...",
            "Registering DROP TABLE command",
            "DROP TABLE command registered successfully",
            "All DROP subcommands registered successfully!",
        ]
    );
}

#[test]
fn all_commands_are_registered_in_order() {
    let lines = register_all_sql_commands().unwrap();
    assert_eq!(lines.len(), 25);
    assert_eq!(lines[0], "Starting SQL command registration system...");
    assert_eq!(lines[1], "Starting dynamic registration of CREATE subcommands...");
    assert_eq!(lines[9], "Starting dynamic registration of DROP subcommands...");
    assert_eq!(
        lines[17..].to_vec(),
        vec![
            "Registering individual SQL commands...",
            "Registering USE command",
            "Registering SELECT command",
            "Registering INSERT command",
            "Registering UPDATE command",
            "Registering DELETE command",
            "Registering EXPLAIN command",
            "All SQL commands registered successfully!",
        ]
    );
}
