//! The commands of the `/sql` group and the lines that announce their
//! registration.

use vstd::prelude::*;
use crate::text::{lemma_string_views_push, string_views};

verus! {

/// A command of the `/sql` group.
#[derive(Clone, Copy, Debug, PartialEq, Eq, Structural)]
pub enum Command {
    CreateDb,
    CreateTable,
    DropDb,
    DropTable,
    Use,
    Select,
    Insert,
    Update,
    Delete,
    Explain,
}

impl Command {
    /// The words under which the command is announced.
    pub open spec fn label(self) -> Seq<char> {
        match self {
            Command::CreateDb => "CREATE DB"@,
            Command::CreateTable => "CREATE TABLE"@,
            Command::DropDb => "DROP DB"@,
            Command::DropTable => "DROP TABLE"@,
            Command::Use => "USE"@,
            Command::Select => "SELECT"@,
            Command::Insert => "INSERT"@,
            Command::Update => "UPDATE"@,
            Command::Delete => "DELETE"@,
            Command::Explain => "EXPLAIN"@,
        }
    }

    /// The words under which the command is announced.
    pub fn label_str(&self) -> (r: &'static str)
        ensures
            r@ == self.label(),
    {
        match self {
            Command::CreateDb => "CREATE DB",
            Command::CreateTable => "CREATE TABLE",
            Command::DropDb => "DROP DB",
            Command::DropTable => "DROP TABLE",
            Command::Use => "USE",
            Command::Select => "SELECT",
            Command::Insert => "INSERT",
            Command::Update => "UPDATE",
            Command::Delete => "DELETE",
            Command::Explain => "EXPLAIN",
        }
    }
}

/// A command that could not be registered.
#[derive(Clone, Copy, Debug, PartialEq, Eq, Structural)]
pub struct RegistrationError {
    pub command: Command,
}

/// The line that announces the registration of a command.
pub open spec fn announcement(command: Command) -> Seq<char> {
    "Registering "@ + command.label() + " command"@
}

/// The lines that the registration of the `CREATE` subcommands announces.
pub open spec fn create_lines() -> Seq<Seq<char>> {
    Seq::empty().push("Starting dynamic registration of CREATE subcommands..."@).push(
        "Registering DB command..."@,
    ).push(announcement(Command::CreateDb)).push("DB command registered successfully"@).push(
        "Registering TABLE command..."@,
    ).push(announcement(Command::CreateTable)).push("TABLE command registered successfully"@).push(
        "All CREATE subcommands registered successfully!"@,
    )
}

/// The lines that the registration of the `DROP` subcommands announces.
pub open spec fn drop_lines() -> Seq<Seq<char>> {
    Seq::empty().push("Starting dynamic registration of DROP subcommands..."@).push(
        "Registering DROP DB command..."@,
    ).push(announcement(Command::DropDb)).push("DROP DB command registered successfully"@).push(
        "Registering DROP TABLE command..."@,
    ).push(announcement(Command::DropTable)).push("DROP TABLE command registered successfully"@).push(
        "All DROP subcommands registered successfully!"@,
    )
}

/// The lines that the registration of all commands announces: the groups
/// first, then each single command.
pub open spec fn all_lines() -> Seq<Seq<char>> {
    (seq!["Starting SQL command registration system..."@] + create_lines() + drop_lines()).push(
        "Registering individual SQL commands..."@,
    ).push(announcement(Command::Use)).push(announcement(Command::Select)).push(
        announcement(Command::Insert),
    ).push(announcement(Command::Update)).push(announcement(Command::Delete)).push(
        announcement(Command::Explain),
    ).push("All SQL commands registered successfully!"@)
}

/// The result of a registration, in views.
pub open spec fn lines_result_view(r: Result<Vec<String>, RegistrationError>) -> Result<
    Seq<Seq<char>>,
    RegistrationError,
> {
    match r {
        Ok(lines) => Ok(string_views(lines@)),
        Err(e) => Err(e),
    }
}

/// Registers one command: gives the line that announces it.
pub fn register(command: Command) -> (r: Result<String, RegistrationError>)
    ensures
        r matches Ok(line) && line@ == announcement(command),
{
    let mut line = String::from_str("Registering ");
    line.append(command.label_str());
    line.append(" command");
    Ok(line)
}

fn push_line(lines: &mut Vec<String>, text: &str)
    ensures
        string_views(final(lines)@) == string_views(old(lines)@).push(text@),
{
    let line = String::from_str(text);
    lines.push(line);
}

fn push_registration(lines: &mut Vec<String>, command: Command) -> (r: Result<(), RegistrationError>)
    ensures
        r is Ok,
        string_views(final(lines)@) == string_views(old(lines)@).push(announcement(command)),
{
    match register(command) {
        Ok(line) => {
            lines.push(line);
            Ok(())
        },
        Err(e) => Err(e),
    }
}

fn append_lines(lines: &mut Vec<String>, more: &Vec<String>)
    ensures
        string_views(final(lines)@) == string_views(old(lines)@) + string_views(more@),
{
    let mut i: usize = 0;
    while i < more.len()
        invariant
            i <= more.len(),
            string_views(lines@) == string_views(old(lines)@) + string_views(more@).take(i as int),
        decreases more.len() - i,
    {
        let line = more[i].clone();
        proof {
            lemma_string_views_push(lines@, line);
        }
        lines.push(line);
        i += 1;
    }
}

/// Registers the `CREATE` subcommands, the database before the table.
pub fn register_create_subcommands() -> (r: Result<Vec<String>, RegistrationError>)
    ensures
        lines_result_view(r) == Ok::<Seq<Seq<char>>, RegistrationError>(create_lines()),
{
    let mut lines: Vec<String> = Vec::new();
    assert(string_views(lines@) =~= Seq::<Seq<char>>::empty());
    push_line(&mut lines, "Starting dynamic registration of CREATE subcommands...");
    push_line(&mut lines, "Registering DB command...");
    if let Err(e) = push_registration(&mut lines, Command::CreateDb) {
        return Err(e);
    }
    push_line(&mut lines, "DB command registered successfully");
    push_line(&mut lines, "Registering TABLE command...");
    if let Err(e) = push_registration(&mut lines, Command::CreateTable) {
        return Err(e);
    }
    push_line(&mut lines, "TABLE command registered successfully");
    push_line(&mut lines, "All CREATE subcommands registered successfully!");
    Ok(lines)
}

/// Registers the `DROP` subcommands, the database before the table.
pub fn register_drop_subcommands() -> (r: Result<Vec<String>, RegistrationError>)
    ensures
        lines_result_view(r) == Ok::<Seq<Seq<char>>, RegistrationError>(drop_lines()),
{
    let mut lines: Vec<String> = Vec::new();
    assert(string_views(lines@) =~= Seq::<Seq<char>>::empty());
    push_line(&mut lines, "Starting dynamic registration of DROP subcommands...");
    push_line(&mut lines, "Registering DROP DB command...");
    if let Err(e) = push_registration(&mut lines, Command::DropDb) {
        return Err(e);
    }
    push_line(&mut lines, "DROP DB command registered successfully");
    push_line(&mut lines, "Registering DROP TABLE command...");
    if let Err(e) = push_registration(&mut lines, Command::DropTable) {
        return Err(e);
    }
    push_line(&mut lines, "DROP TABLE command registered successfully");
    push_line(&mut lines, "All DROP subcommands registered successfully!");
    Ok(lines)
}

/// Registers every command of the `/sql` group.
pub fn register_all_sql_commands() -> (r: Result<Vec<String>, RegistrationError>)
    ensures
        lines_result_view(r) == Ok::<Seq<Seq<char>>, RegistrationError>(all_lines()),
{
    let mut lines: Vec<String> = Vec::new();
    assert(string_views(lines@) =~= Seq::<Seq<char>>::empty());
    push_line(&mut lines, "Starting SQL command registration system...");
    match register_create_subcommands() {
        Ok(more) => append_lines(&mut lines, &more),
        Err(e) => {
            return Err(e);
        },
    }
    match register_drop_subcommands() {
        Ok(more) => append_lines(&mut lines, &more),
        Err(e) => {
            return Err(e);
        },
    }
    push_line(&mut lines, "Registering individual SQL commands...");
    if let Err(e) = push_registration(&mut lines, Command::Use) {
        return Err(e);
    }
    if let Err(e) = push_registration(&mut lines, Command::Select) {
        return Err(e);
    }
    if let Err(e) = push_registration(&mut lines, Command::Insert) {
        return Err(e);
    }
    if let Err(e) = push_registration(&mut lines, Command::Update) {
        return Err(e);
    }
    if let Err(e) = push_registration(&mut lines, Command::Delete) {
        return Err(e);
    }
    if let Err(e) = push_registration(&mut lines, Command::Explain) {
        return Err(e);
    }
    push_line(&mut lines, "All SQL commands registered successfully!");
    Ok(lines)
}

} // verus!
