//! What parsing yields: statements, their configuration entries, and errors.

use vstd::prelude::*;
use sqlparser::ast::Statement;
use sqlparser::parser::ParserError;
use crate::cursor::describe;

verus! {

/// The model of a configuration entry: its name and its value, as written.
pub ghost struct Entry {
    pub name: Seq<char>,
    pub value: Seq<char>,
}

/// The model of a data-source statement.
pub ghost struct DataSource {
    pub table_name: Seq<char>,
    pub config_parameters: Seq<Entry>,
}

/// The model of one parsed statement.
pub ghost enum Item {
    /// A data-source statement.
    Extension(DataSource),
    /// A statement of standard SQL, as the general parser built it.
    Generic(Statement),
}

/// The model of an error: what was expected and not found.
pub ghost enum Fault {
    TableName,
    Config,
    OpenParen,
    Identifier,
    Value,
    /// The tokenizer, the cursor or the general statement parser refused.
    Collaborator,
}

/// The model of an error: its kind and, where it was passed on, the error
/// that was reported.
pub ghost struct Failure {
    pub kind: Fault,
    pub passed_on: Option<ParserError>,
}

/// One `name = 'value'` entry of a data source's configuration.
#[derive(Debug)]
pub struct ConfigParameter {
    pub name: String,
    pub value: String,
}

impl View for ConfigParameter {
    type V = Entry;

    open spec fn view(&self) -> Entry {
        Entry { name: self.name@, value: self.value@ }
    }
}

/// The statements that this library adds to SQL.
#[derive(Debug)]
pub enum V {
    CreateDataSource { table_name: String, config_parameters: Vec<ConfigParameter> },
}

impl View for V {
    type V = DataSource;

    open spec fn view(&self) -> DataSource {
        match self {
            V::CreateDataSource { table_name, config_parameters } => DataSource {
                table_name: table_name@,
                config_parameters: entries_view(config_parameters@),
            },
        }
    }
}

/// The models of a sequence of entries, in the same order.
pub open spec fn entries_view(entries: Seq<ConfigParameter>) -> Seq<Entry> {
    entries.map_values(|e: ConfigParameter| e@)
}

/// One parsed statement: one of this library's own, or one of standard SQL.
#[derive(Debug)]
pub enum VQL {
    V(V),
    Sql(Statement),
}

impl View for VQL {
    type V = Item;

    open spec fn view(&self) -> Item {
        match self {
            VQL::V(v) => Item::Extension(v@),
            VQL::Sql(statement) => Item::Generic(*statement),
        }
    }
}

/// The models of a sequence of statements, in the same order.
pub open spec fn items_view(statements: Seq<VQL>) -> Seq<Item> {
    statements.map_values(|s: VQL| s@)
}

/// Why parsing stopped.
#[derive(Debug)]
pub enum ParseError {
    /// No identifier where the data source's name belongs.
    ExpectedTableName,
    /// No `CONFIG` after the data source's name.
    ExpectedConfig,
    /// No `(` after `CONFIG`.
    ExpectedOpenParen,
    /// No identifier where an entry's name belongs.
    ExpectedIdentifier,
    /// No single-quoted literal where an entry's value belongs.
    ExpectedValue,
    /// An error of the tokenizer, the cursor or the general statement parser,
    /// as it was reported.
    Sql(ParserError),
}

impl ParseError {
    /// What was expected, in words; for an error that was passed on, the
    /// words of the one who reported it.
    pub fn message(&self) -> (r: String)
        ensures
            self.kind() == Fault::TableName ==> r@ == "expect a table_name"@,
            self.kind() == Fault::Config ==> r@ == "expect a config"@,
            self.kind() == Fault::OpenParen ==> r@ == "expect a ("@,
            self.kind() == Fault::Identifier ==> r@ == "expect a identifer"@,
            self.kind() == Fault::Value ==> r@ == "expect a value"@,
    {
        match self {
            ParseError::ExpectedTableName => "expect a table_name".to_owned(),
            ParseError::ExpectedConfig => "expect a config".to_owned(),
            ParseError::ExpectedOpenParen => "expect a (".to_owned(),
            ParseError::ExpectedIdentifier => "expect a identifer".to_owned(),
            ParseError::ExpectedValue => "expect a value".to_owned(),
            ParseError::Sql(error) => describe(error),
        }
    }
}

impl ParseError {
    /// What was expected and not found.
    pub open spec fn kind(&self) -> Fault {
        match self {
            ParseError::ExpectedTableName => Fault::TableName,
            ParseError::ExpectedConfig => Fault::Config,
            ParseError::ExpectedOpenParen => Fault::OpenParen,
            ParseError::ExpectedIdentifier => Fault::Identifier,
            ParseError::ExpectedValue => Fault::Value,
            ParseError::Sql(_) => Fault::Collaborator,
        }
    }
}

impl View for ParseError {
    type V = Failure;

    open spec fn view(&self) -> Failure {
        Failure {
            kind: self.kind(),
            passed_on: match self {
                ParseError::Sql(error) => Some(*error),
                _ => None,
            },
        }
    }
}

} // verus!
