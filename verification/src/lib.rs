//! SQL validation for queries before they ship.
//!
//! Schema validation parses a query in a chosen SQL dialect and reports the parser's error;
//! rule validation reports the message of every rule whose pattern the query matches. The
//! rules come from a tab-separated table of messages and patterns.

pub mod cli;
pub mod dialect;
pub mod parse;
pub mod rule_scan;
pub mod rule_table;
pub mod schema;
pub mod sqlparser_api;
pub mod text;

pub use parse::parse_sql;
pub use rule_scan::validate_sql_query_rules;
pub use rule_table::Rule;
pub use schema::validate_sql_query_schema;
