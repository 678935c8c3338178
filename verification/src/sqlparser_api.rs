//! The parts of `sqlparser` that the library calls, with the contracts they are trusted to meet.

use crate::dialect::SqlDialect;
use crate::dialect::SqlDialect::{
    Ansi, BigQuery, ClickHouse, Databricks, DuckDb, Generic, Hive, MsSql, MySql, Postgres,
    Redshift, Snowflake, Sqlite,
};
use sqlparser::ast::Statement;
use sqlparser::dialect::{
    AnsiDialect, BigQueryDialect, ClickHouseDialect, DatabricksDialect, DuckDbDialect,
    GenericDialect, HiveDialect, MsSqlDialect, MySqlDialect, PostgreSqlDialect,
    RedshiftSqlDialect, SQLiteDialect, SnowflakeDialect,
};
use sqlparser::parser::{Parser, ParserError};
use vstd::prelude::*;

verus! {

/// One statement of the syntax tree that `sqlparser` builds.
#[verifier::external_type_specification]
#[verifier::external_body]
pub struct ExStatement(Statement);

/// The error that `sqlparser` reports when it cannot tokenize or parse a text.
#[verifier::external_type_specification]
#[verifier::external_body]
pub struct ExParserError(ParserError);

/// What `sqlparser::parser::Parser::parse_sql` gives back for a text in a dialect:
/// the statements, or the first error met.
pub uninterp spec fn parsed_sql(dialect: SqlDialect, sql: Seq<char>) -> Result<Seq<Statement>, ParserError>;

/// The text that `Display` writes for a `sqlparser` error.
pub uninterp spec fn parser_error_text(error: ParserError) -> Seq<char>;

/// A parse outcome with the statements taken by their sequence.
pub open spec fn outcome_view(r: Result<Vec<Statement>, ParserError>) -> Result<Seq<Statement>, ParserError> {
    match r {
        Ok(v) => Ok(v@),
        Err(e) => Err(e),
    }
}

/// Calls `Parser::parse_sql` with the `sqlparser` dialect that `dialect` stands for.
/// Trusted: the result is the one that `parse_sql` computes, which depends on the
/// dialect and the text alone; nothing more of it is stated.
#[verifier::external_body]
pub(crate) fn run_parser(dialect: SqlDialect, sql: &str) -> (r: Result<Vec<Statement>, ParserError>)
    ensures
        outcome_view(r) == parsed_sql(dialect, sql@),
{
    match dialect {
        Generic => Parser::parse_sql(&GenericDialect, sql),
        Ansi => Parser::parse_sql(&AnsiDialect {}, sql),
        BigQuery => Parser::parse_sql(&BigQueryDialect, sql),
        ClickHouse => Parser::parse_sql(&ClickHouseDialect {}, sql),
        Databricks => Parser::parse_sql(&DatabricksDialect, sql),
        DuckDb => Parser::parse_sql(&DuckDbDialect, sql),
        Hive => Parser::parse_sql(&HiveDialect {}, sql),
        MsSql => Parser::parse_sql(&MsSqlDialect {}, sql),
        MySql => Parser::parse_sql(&MySqlDialect {}, sql),
        Postgres => Parser::parse_sql(&PostgreSqlDialect {}, sql),
        Redshift => Parser::parse_sql(&RedshiftSqlDialect {}, sql),
        Snowflake => Parser::parse_sql(&SnowflakeDialect, sql),
        Sqlite => Parser::parse_sql(&SQLiteDialect {}, sql),
    }
}

/// Builds `ParserError::ParserError(message)`.
/// Trusted: its `Display` text is `"sql parser error: "` followed by the message,
/// as the `fmt` impl of `ParserError` in `sqlparser` writes it.
#[verifier::external_body]
pub(crate) fn new_parser_error(message: String) -> (e: ParserError)
    ensures
        parser_error_text(e) == "sql parser error: "@ + message@,
{
    ParserError::ParserError(message)
}

/// Calls `to_string` on a `sqlparser` error, which goes through its `Display` impl.
/// Trusted: the result is the text that names `parser_error_text`.
#[verifier::external_body]
pub(crate) fn parser_error_to_string(e: &ParserError) -> (s: String)
    ensures
        s@ == parser_error_text(*e),
{
    e.to_string()
}

} // verus!
