//! Table schemas: column definitions, the declaration parser and the
//! canonical rendering of a schema.

use vstd::prelude::*;
use crate::text::{
    append_chars, chars_of, decimal, decimal_chars, eq_ignore_case, equals_str,
    equals_str_ignore_case, find_char, index_of, parse_u32, split_on, split_on_char, split_words,
    string_of, subvec, trim, trim_vec, u32_literal, views, words,
};

verus! {

/// The closed set of column types.
#[derive(Clone, Copy, Debug, PartialEq, Eq, Structural)]
pub enum DataType {
    Int,
    Varchar,
    Char,
    Boolean,
    Float,
    Double,
    Decimal,
    Date,
    Time,
    DateTime,
}

impl DataType {
    /// The upper-case name under which the type is written.
    pub open spec fn name(self) -> Seq<char> {
        match self {
            DataType::Int => "INT"@,
            DataType::Varchar => "VARCHAR"@,
            DataType::Char => "CHAR"@,
            DataType::Boolean => "BOOLEAN"@,
            DataType::Float => "FLOAT"@,
            DataType::Double => "DOUBLE"@,
            DataType::Decimal => "DECIMAL"@,
            DataType::Date => "DATE"@,
            DataType::Time => "TIME"@,
            DataType::DateTime => "DATETIME"@,
        }
    }

    /// The upper-case name under which the type is written.
    pub fn as_str(&self) -> (r: &'static str)
        ensures
            r@ == self.name(),
    {
        match self {
            DataType::Int => "INT",
            DataType::Varchar => "VARCHAR",
            DataType::Char => "CHAR",
            DataType::Boolean => "BOOLEAN",
            DataType::Float => "FLOAT",
            DataType::Double => "DOUBLE",
            DataType::Decimal => "DECIMAL",
            DataType::Date => "DATE",
            DataType::Time => "TIME",
            DataType::DateTime => "DATETIME",
        }
    }

    /// The type is a character type, whose size is a length limit.
    pub open spec fn is_text(self) -> bool {
        self == DataType::Varchar || self == DataType::Char
    }

    /// The type is a number with an optional precision.
    pub open spec fn is_fractional(self) -> bool {
        self == DataType::Float || self == DataType::Double || self == DataType::Decimal
    }

    /// The greatest size that a declaration may give the type; 0 where the
    /// type takes no size.
    pub open spec fn max_size(self) -> u32 {
        if self.is_text() {
            65535
        } else if self.is_fractional() {
            65
        } else {
            0
        }
    }
}

/// What is wrong with the size of a declared column.
#[derive(Clone, Copy, Debug, PartialEq, Eq, Structural)]
pub enum SizeProblem {
    /// The type needs a size and none was given.
    Missing,
    /// The size 0 was given.
    Zero,
    /// The size given is over the type's maximum.
    TooLarge(u32),
    /// The type takes no size and one was given.
    NotAllowed(u32),
}

/// The size rule of each type: character types need a size in 1..=65535,
/// fractional types may have a precision in 1..=65, the others take none.
pub open spec fn size_problem(t: DataType, size: Option<u32>) -> Option<SizeProblem> {
    match size {
        None => if t.is_text() {
            Some(SizeProblem::Missing)
        } else {
            None
        },
        Some(n) => if !t.is_text() && !t.is_fractional() {
            Some(SizeProblem::NotAllowed(n))
        } else if n == 0 {
            Some(SizeProblem::Zero)
        } else if n > t.max_size() {
            Some(SizeProblem::TooLarge(n))
        } else {
            None
        },
    }
}

/// Checks a size against the rule of the type.
pub fn check_size(t: DataType, size: Option<u32>) -> (r: Option<SizeProblem>)
    ensures
        r == size_problem(t, size),
{
    match t {
        DataType::Varchar | DataType::Char => match size {
            None => Some(SizeProblem::Missing),
            Some(n) => if n == 0 {
                Some(SizeProblem::Zero)
            } else if n > 65535 {
                Some(SizeProblem::TooLarge(n))
            } else {
                None
            },
        },
        DataType::Float | DataType::Double | DataType::Decimal => match size {
            None => None,
            Some(n) => if n == 0 {
                Some(SizeProblem::Zero)
            } else if n > 65 {
                Some(SizeProblem::TooLarge(n))
            } else {
                None
            },
        },
        _ => match size {
            None => None,
            Some(n) => Some(SizeProblem::NotAllowed(n)),
        },
    }
}

/// One column of a table.
#[derive(Debug, Clone)]
pub struct ColumnDefinition {
    pub name: String,
    pub data_type: DataType,
    pub size: Option<u32>,
    pub nullable: bool,
    pub primary_key: bool,
}

/// The mathematical value of a column definition.
pub struct ColumnView {
    pub name: Seq<char>,
    pub data_type: DataType,
    pub size: Option<u32>,
    pub nullable: bool,
    pub primary_key: bool,
}

impl View for ColumnDefinition {
    type V = ColumnView;

    open spec fn view(&self) -> ColumnView {
        ColumnView {
            name: self.name@,
            data_type: self.data_type,
            size: self.size,
            nullable: self.nullable,
            primary_key: self.primary_key,
        }
    }
}

/// The views of the columns of a schema, in order.
pub open spec fn schema_view(cols: Seq<ColumnDefinition>) -> Seq<ColumnView> {
    Seq::new(cols.len(), |i: int| cols[i]@)
}

/// The view of a schema with one more column.
pub proof fn lemma_schema_view_push(cols: Seq<ColumnDefinition>, c: ColumnDefinition)
    ensures
        schema_view(cols.push(c)) == schema_view(cols).push(c@),
{
}

impl ColumnDefinition {
    /// A copy with the same view.
    pub fn duplicate(&self) -> (r: ColumnDefinition)
        ensures
            r@ == self@,
    {
        ColumnDefinition {
            name: self.name.clone(),
            data_type: self.data_type,
            size: self.size,
            nullable: self.nullable,
            primary_key: self.primary_key,
        }
    }
}

/// A named table with its columns.
#[derive(Debug)]
pub struct TableSchema {
    pub name: String,
    pub columns: Vec<ColumnDefinition>,
}

/// Why a declaration was refused.
#[derive(Debug, Clone)]
pub enum SchemaError {
    /// A column declaration with fewer than two words.
    InvalidColumn { text: String },
    /// A type name outside the closed set.
    UnknownType { type_word: String, column: String },
    /// A size that the type's rule refuses.
    InvalidSize { column: String, data_type: DataType, problem: SizeProblem },
}

/// The mathematical value of a [`SchemaError`].
pub enum SchemaErrorView {
    InvalidColumn { text: Seq<char> },
    UnknownType { type_word: Seq<char>, column: Seq<char> },
    InvalidSize { column: Seq<char>, data_type: DataType, problem: SizeProblem },
}

impl View for SchemaError {
    type V = SchemaErrorView;

    open spec fn view(&self) -> SchemaErrorView {
        match self {
            SchemaError::InvalidColumn { text } => SchemaErrorView::InvalidColumn { text: text@ },
            SchemaError::UnknownType { type_word, column } => SchemaErrorView::UnknownType {
                type_word: type_word@,
                column: column@,
            },
            SchemaError::InvalidSize { column, data_type, problem } => SchemaErrorView::InvalidSize {
                column: column@,
                data_type: *data_type,
                problem: *problem,
            },
        }
    }
}

// ---------------------------------------------------------------------------
// Type names
// ---------------------------------------------------------------------------

/// The type that a lower-case name or synonym stands for.
pub open spec fn data_type_of_lower(l: Seq<char>) -> Option<DataType> {
    if l == "int"@ || l == "integer"@ {
        Some(DataType::Int)
    } else if l == "varchar"@ || l == "string"@ || l == "text"@ {
        Some(DataType::Varchar)
    } else if l == "char"@ || l == "character"@ {
        Some(DataType::Char)
    } else if l == "bool"@ || l == "boolean"@ {
        Some(DataType::Boolean)
    } else if l == "float"@ || l == "real"@ {
        Some(DataType::Float)
    } else if l == "double"@ {
        Some(DataType::Double)
    } else if l == "decimal"@ || l == "numeric"@ {
        Some(DataType::Decimal)
    } else if l == "date"@ {
        Some(DataType::Date)
    } else if l == "time"@ {
        Some(DataType::Time)
    } else if l == "datetime"@ || l == "timestamp"@ {
        Some(DataType::DateTime)
    } else {
        None
    }
}

/// The type that `name` stands for, whatever its ASCII case.
pub open spec fn data_type_named(name: Seq<char>) -> Option<DataType> {
    data_type_of_lower(crate::text::lower(name))
}



fn data_type_of_chars(name: &Vec<char>) -> (r: Option<DataType>)
    ensures
        r == data_type_named(name@),
{
    let l = crate::text::to_lower_vec(name);
    if equals_str(&l, "int") || equals_str(&l, "integer") {
        Some(DataType::Int)
    } else if equals_str(&l, "varchar") || equals_str(&l, "string") || equals_str(&l, "text") {
        Some(DataType::Varchar)
    } else if equals_str(&l, "char") || equals_str(&l, "character") {
        Some(DataType::Char)
    } else if equals_str(&l, "bool") || equals_str(&l, "boolean") {
        Some(DataType::Boolean)
    } else if equals_str(&l, "float") || equals_str(&l, "real") {
        Some(DataType::Float)
    } else if equals_str(&l, "double") {
        Some(DataType::Double)
    } else if equals_str(&l, "decimal") || equals_str(&l, "numeric") {
        Some(DataType::Decimal)
    } else if equals_str(&l, "date") {
        Some(DataType::Date)
    } else if equals_str(&l, "time") {
        Some(DataType::Time)
    } else if equals_str(&l, "datetime") || equals_str(&l, "timestamp") {
        Some(DataType::DateTime)
    } else {
        None
    }
}

/// Maps a type name or one of its synonyms, in any ASCII case, to its type.
pub fn normalize_data_type(data_type: &str) -> (r: Option<DataType>)
    ensures
        r == data_type_named(data_type@),
{
    let v = chars_of(data_type);
    data_type_of_chars(&v)
}

// ---------------------------------------------------------------------------
// The declaration parser
// ---------------------------------------------------------------------------

/// Splits a type word `NAME(n)` into its name and size. Where the word has
/// no parenthesised unsigned number, it is its own name and has no size.
pub open spec fn split_size(word: Seq<char>) -> (Seq<char>, Option<u32>) {
    let open = index_of(word, '(');
    let close = index_of(word, ')');
    if 0 <= open < close < word.len() {
        match u32_literal(word.subrange(open + 1, close)) {
            Some(n) => (word.take(open), Some(n)),
            None => (word, None),
        }
    } else {
        (word, None)
    }
}

/// The two words `first second` stand side by side, in any ASCII case,
/// somewhere after the type word.
pub open spec fn has_pair(parts: Seq<Seq<char>>, first: Seq<char>, second: Seq<char>) -> bool {
    exists|i: int|
        2 <= i && i + 1 < parts.len() && eq_ignore_case(#[trigger] parts[i], first)
            && eq_ignore_case(parts[i + 1], second)
}

/// What one column declaration, trimmed and not empty, declares.
pub open spec fn parse_column(segment: Seq<char>) -> Result<ColumnView, SchemaErrorView> {
    let parts = words(segment);
    if parts.len() < 2 {
        Err(SchemaErrorView::InvalidColumn { text: segment })
    } else {
        let name = parts[0];
        let (type_word, size) = split_size(parts[1]);
        match data_type_named(type_word) {
            None => Err(SchemaErrorView::UnknownType { type_word: type_word, column: name }),
            Some(t) => match size_problem(t, size) {
                Some(p) => Err(
                    SchemaErrorView::InvalidSize { column: name, data_type: t, problem: p },
                ),
                None => Ok(
                    ColumnView {
                        name: name,
                        data_type: t,
                        size: size,
                        nullable: !has_pair(parts, "NOT"@, "NULL"@),
                        primary_key: has_pair(parts, "PRIMARY"@, "KEY"@),
                    },
                ),
            },
        }
    }
}

/// `cols` followed by what `rest` gives, or the error of `rest`.
pub open spec fn prepend_columns(
    cols: Seq<ColumnView>,
    rest: Result<Seq<ColumnView>, SchemaErrorView>,
) -> Result<Seq<ColumnView>, SchemaErrorView> {
    match rest {
        Ok(more) => Ok(cols + more),
        Err(e) => Err(e),
    }
}

/// The columns that the comma-separated pieces of a declaration declare, in
/// order: blank pieces are passed over, and the first piece that is refused
/// decides the error.
pub open spec fn parse_columns(segments: Seq<Seq<char>>) -> Result<Seq<ColumnView>, SchemaErrorView>
    decreases segments.len(),
{
    if segments.len() == 0 {
        Ok(Seq::empty())
    } else {
        let segment = trim(segments[0]);
        if segment.len() == 0 {
            parse_columns(segments.drop_first())
        } else {
            match parse_column(segment) {
                Err(e) => Err(e),
                Ok(c) => prepend_columns(seq![c], parse_columns(segments.drop_first())),
            }
        }
    }
}

/// What a declaration text declares.
pub open spec fn parse_schema_text(text: Seq<char>) -> Result<Seq<ColumnView>, SchemaErrorView> {
    parse_columns(split_on(text, ','))
}

fn split_type_word(word: &Vec<char>) -> (r: (Vec<char>, Option<u32>))
    ensures
        (r.0@, r.1) == split_size(word@),
{
    proof {
        assert(word@.skip(0) =~= word@);
    }
    let open = find_char(word, 0, '(');
    let close = find_char(word, 0, ')');
    match (open, close) {
        (Some(a), Some(b)) => {
            if a < b {
                let digits = subvec(word, a + 1, b);
                match parse_u32(&digits) {
                    Some(n) => {
                        let name = subvec(word, 0, a);
                        (name, Some(n))
                    },
                    None => (subvec(word, 0, word.len()), None),
                }
            } else {
                (subvec(word, 0, word.len()), None)
            }
        },
        _ => {
            (subvec(word, 0, word.len()), None)
        },
    }
}

fn find_pair(parts: &Vec<Vec<char>>, first: &str, second: &str) -> (r: bool)
    ensures
        r == has_pair(views(parts@), first@, second@),
{
    if parts.len() < 4 {
        return false;
    }
    let mut i: usize = 2;
    while i + 1 < parts.len()
        invariant
            2 <= i < parts.len(),
            forall|j: int|
                2 <= j < i ==> !(eq_ignore_case(#[trigger] views(parts@)[j], first@)
                    && eq_ignore_case(views(parts@)[j + 1], second@)),
        decreases parts.len() - i,
    {
        if equals_str_ignore_case(&parts[i], first) && equals_str_ignore_case(&parts[i + 1], second) {
            assert(eq_ignore_case(views(parts@)[i as int], first@));
            return true;
        }
        i += 1;
    }
    false
}

fn parse_column_chars(segment: &Vec<char>) -> (r: Result<ColumnDefinition, SchemaError>)
    ensures
        match r {
            Ok(c) => parse_column(segment@) == Ok::<ColumnView, SchemaErrorView>(c@),
            Err(e) => parse_column(segment@) == Err::<ColumnView, SchemaErrorView>(e@),
        },
{
    let parts = split_words(segment);
    if parts.len() < 2 {
        return Err(SchemaError::InvalidColumn { text: string_of(segment) });
    }
    let name = string_of(&parts[0]);
    let (type_word, size) = split_type_word(&parts[1]);
    match data_type_of_chars(&type_word) {
        None => Err(SchemaError::UnknownType { type_word: string_of(&type_word), column: name }),
        Some(t) => match check_size(t, size) {
            Some(p) => Err(SchemaError::InvalidSize { column: name, data_type: t, problem: p }),
            None => {
                let not_null = find_pair(&parts, "NOT", "NULL");
                let primary_key = find_pair(&parts, "PRIMARY", "KEY");
                Ok(
                    ColumnDefinition {
                        name: name,
                        data_type: t,
                        size: size,
                        nullable: !not_null,
                        primary_key: primary_key,
                    },
                )
            },
        },
    }
}

/// The result of [`parse_schema`], in views.
pub open spec fn schema_result_view(
    r: Result<Vec<ColumnDefinition>, SchemaError>,
) -> Result<Seq<ColumnView>, SchemaErrorView> {
    match r {
        Ok(cols) => Ok(schema_view(cols@)),
        Err(e) => Err(e@),
    }
}

fn parse_schema_chars(text: &Vec<char>) -> (r: Result<Vec<ColumnDefinition>, SchemaError>)
    ensures
        schema_result_view(r) == parse_schema_text(text@),
{
    let segments = split_on_char(text, ',');
    let mut cols: Vec<ColumnDefinition> = Vec::new();
    let mut i: usize = 0;
    let ghost all = views(segments@);
    assert(all.skip(0) =~= all);
    while i < segments.len()
        invariant
            i <= segments.len(),
            all == views(segments@),
            all == split_on(text@, ','),
            parse_columns(all) == prepend_columns(schema_view(cols@), parse_columns(all.skip(i as int))),
        decreases segments.len() - i,
    {
        let ghost rest = all.skip(i as int);
        assert(rest.drop_first() =~= all.skip(i + 1));
        let segment = trim_vec(&segments[i]);
        if segment.len() > 0 {
            match parse_column_chars(&segment) {
                Err(e) => {
                    return Err(e);
                },
                Ok(c) => {
                    proof {
                        lemma_schema_view_push(cols@, c);
                        let tail = parse_columns(all.skip(i + 1));
                        match tail {
                            Ok(more) => {
                                assert(schema_view(cols@) + (seq![c@] + more) =~= schema_view(
                                    cols@,
                                ).push(c@) + more);
                            },
                            Err(_) => {},
                        }
                    }
                    cols.push(c);
                },
            }
        }
        i += 1;
    }
    Ok(cols)
}

/// Parses a comma-separated column declaration such as
/// `id INT PRIMARY KEY, name VARCHAR(255) NOT NULL`.
///
/// Each piece is `name TYPE` or `name TYPE(size)`, followed by any words;
/// among them `NOT NULL` and `PRIMARY KEY` are recognised. An empty or blank
/// text declares no column. Two columns may bear one name: a lookup by name
/// then finds the first.
pub fn parse_schema(text: &str) -> (r: Result<Vec<ColumnDefinition>, SchemaError>)
    ensures
        schema_result_view(r) == parse_schema_text(text@),
        r matches Ok(cols) ==> crate::schema_laws::is_declared_schema(schema_view(cols@)),
{
    let chars = chars_of(text);
    let r = parse_schema_chars(&chars);
    proof {
        if r is Ok {
            crate::schema_laws::lemma_parsed_schema_declared(text@);
        }
    }
    r
}

// ---------------------------------------------------------------------------
// Messages
// ---------------------------------------------------------------------------

/// The explanation of a refused size, with a corrective example.
pub open spec fn size_message(column: Seq<char>, t: DataType, problem: SizeProblem) -> Seq<char> {
    match problem {
        SizeProblem::Missing => {
            "**"@ +
            t.name() +
            "** requires a size specification for column **"@ +
            column +
            "**\n\n**Examples:**\n• `"@ +
            column +
            " VARCHAR(255)` - variable-length string up to 255 characters\n• `"@ +
            column +
            " CHAR(10)` - fixed-length string of exactly 10 characters\n\n**Common sizes:** VARCHAR(50), VARCHAR(255), VARCHAR(1000), CHAR(1), CHAR(10)"@
        },
        SizeProblem::Zero => if t.is_fractional() {
            "**"@ +
            t.name() +
            "** precision must be greater than 0 for column **"@ +
            column +
            "**\n\n**Examples:** `"@ +
            column +
            " DECIMAL(10)`, `"@ +
            column +
            " FLOAT(7)`"@
        } else {
            "**"@ +
            t.name() +
            "** size must be greater than 0 for column **"@ +
            column +
            "**\n\n**Examples:** `"@ +
            column +
            " VARCHAR(1)`, `"@ +
            column +
            " CHAR(10)`"@
        },
        SizeProblem::TooLarge(n) => if t.is_fractional() {
            "**"@ +
            t.name() +
            "** precision "@ +
            decimal(n as nat) +
            " is too large for column **"@ +
            column +
            "** (maximum: 65)\n\n**Suggestion:** Use a smaller precision like `"@ +
            column +
            " DECIMAL(18)` for most financial calculations"@
        } else {
            "**"@ +
            t.name() +
            "** size "@ +
            decimal(n as nat) +
            " is too large for column **"@ +
            column +
            "** (maximum: 65535)\n\n**Suggestion:** Use a smaller size like `"@ +
            column +
            " VARCHAR(1000)` or consider if you really need such a large text field"@
        },
        SizeProblem::NotAllowed(n) => if t == DataType::Int {
            "**INT** does not support size specification for column **"@ +
            column +
            "**\n\n**Correct usage:** `"@ +
            column +
            " INT`\n**Invalid usage:** `"@ +
            column +
            " INT("@ +
            decimal(n as nat) +
            ")`\n\n**Explanation:** INT values are fixed-size 64-bit integers and don't need size limits"@
        } else {
            "**"@ +
            t.name() +
            "** does not support size specification for column **"@ +
            column +
            "**\n\n**Correct usage:** `"@ +
            column +
            " "@ +
            t.name() +
            "`\n**Invalid usage:** `"@ +
            column +
            " "@ +
            t.name() +
            "("@ +
            decimal(n as nat) +
            ")`\n\n**Explanation:** "@ +
            t.name() +
            " values have a fixed internal representation and don't need size limits"@
        },
    }
}

/// The text that explains a refused declaration: it names the column and
/// gives a corrective example.
pub open spec fn schema_message(e: SchemaErrorView) -> Seq<char> {
    match e {
        SchemaErrorView::InvalidColumn { text } => {
            "Invalid column definition: '"@ +
            text +
            "'. Expected format: 'column_name data_type'"@
        },
        SchemaErrorView::UnknownType { type_word, column } => {
            "**"@ +
            type_word +
            "** is not a valid data type for column **"@ +
            column +
            "**\n\n**Supported Types:**\n• INT, VARCHAR, CHAR, BOOLEAN\n• FLOAT, DOUBLE, DECIMAL\n• DATE, TIME, DATETIME\n\n**Examples:** `id INT`, `name VARCHAR(100)`, `active BOOLEAN`"@
        },
        SchemaErrorView::InvalidSize { column, data_type, problem } => size_message(
            column,
            data_type,
            problem,
        ),
    }
}

fn fractional(t: DataType) -> (r: bool)
    ensures
        r == t.is_fractional(),
{
    match t {
        DataType::Float | DataType::Double | DataType::Decimal => true,
        _ => false,
    }
}

fn size_message_string(column: &String, t: DataType, problem: SizeProblem) -> (r: String)
    ensures
        r@ == size_message(column@, t, problem),
{
    match problem {
        SizeProblem::Missing => {
            let mut m = String::from_str("**");
            m.append(t.as_str());
            m.append("** requires a size specification for column **");
            m.append(column.as_str());
            m.append("**\n\n**Examples:**\n• `");
            m.append(column.as_str());
            m.append(" VARCHAR(255)` - variable-length string up to 255 characters\n• `");
            m.append(column.as_str());
            m.append(" CHAR(10)` - fixed-length string of exactly 10 characters\n\n**Common sizes:** VARCHAR(50), VARCHAR(255), VARCHAR(1000), CHAR(1), CHAR(10)");
            m
        },
        SizeProblem::Zero => if fractional(t) {
            let mut m = String::from_str("**");
            m.append(t.as_str());
            m.append("** precision must be greater than 0 for column **");
            m.append(column.as_str());
            m.append("**\n\n**Examples:** `");
            m.append(column.as_str());
            m.append(" DECIMAL(10)`, `");
            m.append(column.as_str());
            m.append(" FLOAT(7)`");
            m
        } else {
            let mut m = String::from_str("**");
            m.append(t.as_str());
            m.append("** size must be greater than 0 for column **");
            m.append(column.as_str());
            m.append("**\n\n**Examples:** `");
            m.append(column.as_str());
            m.append(" VARCHAR(1)`, `");
            m.append(column.as_str());
            m.append(" CHAR(10)`");
            m
        },
        SizeProblem::TooLarge(n) => if fractional(t) {
            let mut m = String::from_str("**");
            m.append(t.as_str());
            m.append("** precision ");
            append_chars(&mut m, &decimal_chars(n as u64));
            m.append(" is too large for column **");
            m.append(column.as_str());
            m.append("** (maximum: 65)\n\n**Suggestion:** Use a smaller precision like `");
            m.append(column.as_str());
            m.append(" DECIMAL(18)` for most financial calculations");
            m
        } else {
            let mut m = String::from_str("**");
            m.append(t.as_str());
            m.append("** size ");
            append_chars(&mut m, &decimal_chars(n as u64));
            m.append(" is too large for column **");
            m.append(column.as_str());
            m.append("** (maximum: 65535)\n\n**Suggestion:** Use a smaller size like `");
            m.append(column.as_str());
            m.append(" VARCHAR(1000)` or consider if you really need such a large text field");
            m
        },
        SizeProblem::NotAllowed(n) => if t == DataType::Int {
            let mut m = String::from_str("**INT** does not support size specification for column **");
            m.append(column.as_str());
            m.append("**\n\n**Correct usage:** `");
            m.append(column.as_str());
            m.append(" INT`\n**Invalid usage:** `");
            m.append(column.as_str());
            m.append(" INT(");
            append_chars(&mut m, &decimal_chars(n as u64));
            m.append(")`\n\n**Explanation:** INT values are fixed-size 64-bit integers and don't need size limits");
            m
        } else {
            let mut m = String::from_str("**");
            m.append(t.as_str());
            m.append("** does not support size specification for column **");
            m.append(column.as_str());
            m.append("**\n\n**Correct usage:** `");
            m.append(column.as_str());
            m.append(" ");
            m.append(t.as_str());
            m.append("`\n**Invalid usage:** `");
            m.append(column.as_str());
            m.append(" ");
            m.append(t.as_str());
            m.append("(");
            append_chars(&mut m, &decimal_chars(n as u64));
            m.append(")`\n\n**Explanation:** ");
            m.append(t.as_str());
            m.append(" values have a fixed internal representation and don't need size limits");
            m
        },
    }
}

impl SchemaError {
    /// The text that explains the error.
    pub fn message(&self) -> (r: String)
        ensures
            r@ == schema_message(self@),
    {
        match self {
            SchemaError::InvalidColumn { text } => {
                let mut m = String::from_str("Invalid column definition: '");
                m.append(text.as_str());
                m.append("'. Expected format: 'column_name data_type'");
                m
            },
            SchemaError::UnknownType { type_word, column } => {
                let mut m = String::from_str("**");
                m.append(type_word.as_str());
                m.append("** is not a valid data type for column **");
                m.append(column.as_str());
                m.append("**\n\n**Supported Types:**\n• INT, VARCHAR, CHAR, BOOLEAN\n• FLOAT, DOUBLE, DECIMAL\n• DATE, TIME, DATETIME\n\n**Examples:** `id INT`, `name VARCHAR(100)`, `active BOOLEAN`");
                m
            },
            SchemaError::InvalidSize { column, data_type, problem } => size_message_string(
                column,
                *data_type,
                *problem,
            ),
        }
    }
}

/// Parses a declaration as [`parse_schema`] does, and explains a refusal in
/// words.
pub fn parse_column_definitions(schema_str: &str) -> (r: Result<Vec<ColumnDefinition>, String>)
    ensures
        match r {
            Ok(cols) => parse_schema_text(schema_str@) == Ok::<Seq<ColumnView>, SchemaErrorView>(
                schema_view(cols@),
            ),
            Err(m) => parse_schema_text(schema_str@) is Err && m@ == schema_message(
                parse_schema_text(schema_str@)->Err_0,
            ),
        },
{
    match parse_schema(schema_str) {
        Ok(cols) => Ok(cols),
        Err(e) => Err(e.message()),
    }
}

// ---------------------------------------------------------------------------
// Canonical rendering
// ---------------------------------------------------------------------------

/// The canonical declaration of one column: name, type, size in
/// parentheses where there is one, then `NOT NULL` and `PRIMARY KEY` where
/// they hold.
pub open spec fn render_column(c: ColumnView) -> Seq<char> {
    let head = c.name + " "@ + c.data_type.name();
    let sized = match c.size {
        Some(n) => head + "("@ + decimal(n as nat) + ")"@,
        None => head,
    };
    let nulled = if c.nullable {
        sized
    } else {
        sized + " NOT NULL"@
    };
    if c.primary_key {
        nulled + " PRIMARY KEY"@
    } else {
        nulled
    }
}

/// The canonical declaration of a schema: its columns' declarations,
/// separated by `, `.
pub open spec fn render_columns(cols: Seq<ColumnView>) -> Seq<char>
    decreases cols.len(),
{
    if cols.len() == 0 {
        Seq::empty()
    } else if cols.len() == 1 {
        render_column(cols[0])
    } else {
        render_columns(cols.drop_last()) + ", "@ + render_column(cols.last())
    }
}

/// The `CREATE TABLE` statement of a table.
pub open spec fn render_table(name: Seq<char>, cols: Seq<ColumnView>) -> Seq<char> {
    "CREATE TABLE "@ + name + " (\n"@ + render_table_columns(cols) + "\n)"@
}

/// The column lines of a `CREATE TABLE` statement.
pub open spec fn render_table_columns(cols: Seq<ColumnView>) -> Seq<char>
    decreases cols.len(),
{
    if cols.len() == 0 {
        Seq::empty()
    } else if cols.len() == 1 {
        "    "@ + render_column(cols[0])
    } else {
        render_table_columns(cols.drop_last()) + ",\n"@ + "    "@ + render_column(cols.last())
    }
}

fn push_column(m: &mut String, c: &ColumnDefinition)
    ensures
        final(m)@ == old(m)@ + render_column(c@),
{
    let ghost head = c@.name + " "@ + c@.data_type.name();
    m.append(c.name.as_str());
    m.append(" ");
    m.append(c.data_type.as_str());
    let ghost sized = match c@.size {
        Some(n) => head + "("@ + decimal(n as nat) + ")"@,
        None => head,
    };
    match c.size {
        Some(n) => {
            m.append("(");
            append_chars(m, &decimal_chars(n as u64));
            m.append(")");
        },
        None => {},
    }
    let ghost nulled = if c@.nullable {
        sized
    } else {
        sized + " NOT NULL"@
    };
    if !c.nullable {
        m.append(" NOT NULL");
    }
    if c.primary_key {
        m.append(" PRIMARY KEY");
    }
}

impl ColumnDefinition {
    /// The canonical declaration of the column.
    pub fn render(&self) -> (r: String)
        ensures
            r@ == render_column(self@),
    {
        let mut m = String::new();
        push_column(&mut m, self);
        m
    }
}

/// The canonical declaration of a schema, which [`parse_schema`] reads back.
pub fn render_schema(cols: &Vec<ColumnDefinition>) -> (r: String)
    ensures
        r@ == render_columns(schema_view(cols@)),
{
    let mut m = String::new();
    let mut i: usize = 0;
    let ghost all = schema_view(cols@);
    while i < cols.len()
        invariant
            i <= cols.len(),
            all == schema_view(cols@),
            m@ == render_columns(all.take(i as int)),
        decreases cols.len() - i,
    {
        let ghost before = all.take(i as int);
        let ghost after = all.take(i + 1);
        assert(after.drop_last() =~= before);
        if i > 0 {
            m.append(", ");
        }
        push_column(&mut m, &cols[i]);
        i += 1;
    }
    assert(all.take(cols.len() as int) =~= all);
    m
}

impl TableSchema {
    /// The `CREATE TABLE` statement of the table.
    pub fn render(&self) -> (r: String)
        ensures
            r@ == render_table(self.name@, schema_view(self.columns@)),
    {
        let mut m = String::from_str("CREATE TABLE ");
        m.append(self.name.as_str());
        m.append(" (\n");
        let ghost head = m@;
        let mut i: usize = 0;
        let ghost all = schema_view(self.columns@);
        while i < self.columns.len()
            invariant
                i <= self.columns.len(),
                all == schema_view(self.columns@),
                m@ == head + render_table_columns(all.take(i as int)),
            decreases self.columns.len() - i,
        {
            let ghost before = all.take(i as int);
            let ghost after = all.take(i + 1);
            assert(after.drop_last() =~= before);
            if i > 0 {
                m.append(",\n");
            }
            m.append("    ");
            push_column(&mut m, &self.columns[i]);
            i += 1;
        }
        assert(all.take(self.columns.len() as int) =~= all);
        m.append("\n)");
        m
    }
}

// ---------------------------------------------------------------------------
// Stored declarations
// ---------------------------------------------------------------------------

/// A declaration in the older form, which writes `name: TYPE`.
pub open spec fn is_legacy_declaration(d: Seq<char>) -> bool {
    crate::text::contains(d, ": "@)
}

/// The declaration in the current form: in one of the older form each
/// `: ` becomes a space.
pub open spec fn normalize_declaration(d: Seq<char>) -> Seq<char> {
    if is_legacy_declaration(d) {
        crate::text::replace(d, ": "@, " "@)
    } else {
        d
    }
}

/// The declaration that a table's topic holds: what follows the first
/// `Schema: `, in the current form. `None` where the topic holds none.
pub open spec fn topic_declaration(topic: Seq<char>) -> Option<Seq<char>> {
    let i = crate::text::find(topic, "Schema: "@);
    if 0 <= i && i + 8 <= topic.len() {
        Some(normalize_declaration(topic.skip(i + 8)))
    } else {
        None
    }
}

/// The schema that a table's topic declares; a topic without a declaration
/// declares no column.
pub open spec fn schema_of_topic(topic: Seq<char>) -> Result<Seq<ColumnView>, SchemaErrorView> {
    match topic_declaration(topic) {
        Some(d) => parse_schema_text(d),
        None => Ok(Seq::empty()),
    }
}

/// Reads the schema of a table from its topic.
pub fn parse_schema_from_topic(topic: &str) -> (r: Result<Vec<ColumnDefinition>, SchemaError>)
    ensures
        schema_result_view(r) == schema_of_topic(topic@),
{
    let chars = chars_of(topic);
    let marker = chars_of("Schema: ");
    proof {
        reveal_strlit("Schema: ");
    }
    match crate::text::find_sub(&chars, &marker) {
        Some(i) => {
            let raw = subvec(&chars, i + 8, chars.len());
            let old_separator = chars_of(": ");
            let declaration = if crate::text::find_sub(&raw, &old_separator).is_some() {
                let space = chars_of(" ");
                crate::text::replace_all(&raw, &old_separator, &space)
            } else {
                raw
            };
            parse_schema_chars(&declaration)
        },
        None => {
            let cols: Vec<ColumnDefinition> = Vec::new();
            assert(schema_view(cols@) =~= Seq::<ColumnView>::empty());
            Ok(cols)
        },
    }
}

/// The topic that stores a schema: `Schema: `, then its canonical
/// declaration.
pub fn schema_topic(cols: &Vec<ColumnDefinition>) -> (r: String)
    ensures
        r@ == "Schema: "@ + render_columns(schema_view(cols@)),
{
    let mut m = String::from_str("Schema: ");
    let d = render_schema(cols);
    m.append(d.as_str());
    m
}

} // verus!
