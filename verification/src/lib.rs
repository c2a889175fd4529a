//! A minimal SQL-subset engine: typed table schemas, literal value lists,
//! row validation, primary-key uniqueness, `WHERE` filters and the textual
//! record format in which rows are stored.
//!
//! Text is modelled as `Seq<char>`; every public function states its result
//! over that model.
//!
//! - [`text`]: character and text primitives.
//! - [`schema`]: column definitions, the declaration parser and the canonical
//!   rendering; [`schema_laws`] proves that rendering and parsing agree.
//! - [`values`]: typed literals and the literal-list parser; [`values_laws`]
//!   proves that a list gives one value for each field.
//! - [`datetime`]: ISO 8601 dates and times.
//! - [`validate`]: validation of a row against a schema.
//! - [`codec`]: the stored record; [`record_laws`] proves that a record reads
//!   back as the row that was written.
//! - [`unique`]: the primary-key check.
//! - [`filter`]: `WHERE` clauses; [`filter_laws`] proves that ` AND ` and
//!   ` OR ` are conjunction and disjunction, and that ` AND ` binds tighter
//!   unless parentheses group otherwise.
//! - [`query`] and [`insert`]: selection and insertion over the records of a
//!   table; [`display`] writes a result as a table.
//! - [`names`]: names of databases and tables.
//! - [`commands`]: the commands and the announcement of their registration.

pub mod codec;
pub mod commands;
pub mod datetime;
pub mod display;
pub mod filter;
pub mod filter_laws;
pub mod insert;
pub mod names;
pub mod query;
pub mod record_laws;
pub mod schema;
pub mod schema_laws;
pub mod text;
pub mod unique;
pub mod validate;
pub mod values;
pub mod values_laws;
