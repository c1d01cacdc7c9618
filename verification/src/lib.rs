//! A SQL front end with one statement of its own, `CREATE DATASOURCE`, which
//! names a data source and lists its configuration as `name = 'value'`
//! entries. Every other statement is handed to a general SQL parser.

pub mod token;
pub mod cursor;
pub mod grammar;
pub mod statement;
pub mod parser;
pub mod laws;

pub use cursor::Cursor;
pub use parser::{opens_well, parse, parse_config_parameters, parse_create_datasource};
pub use statement::{ConfigParameter, ParseError, V, VQL};
