//! Parsing a query in the dialect that the caller names.

use crate::dialect::{
    dialect_name, lemma_dialect_found_by_name, lemma_lookup_ignores_ascii_case, lookup_dialect,
    plugin_for, SqlDialect,
};
use crate::text::eq_ignore_ascii_case;
use crate::sqlparser_api::{
    new_parser_error, outcome_view, parsed_sql, parser_error_text, run_parser,
};
use sqlparser::ast::Statement;
use sqlparser::parser::ParserError;
use vstd::prelude::*;
use vstd::string::StringExecFns;

verus! {

/// An optional dialect name taken by its text.
pub open spec fn name_view(name: Option<&str>) -> Option<Seq<char>> {
    match name {
        Some(n) => Some(n@),
        None => None,
    }
}

/// The dialect that an optional name selects: the generic dialect when no name is
/// given, else the dialect whose name matches up to ASCII case, if there is one.
pub open spec fn selected_dialect(name: Option<Seq<char>>) -> Option<SqlDialect> {
    match name {
        None => Some(SqlDialect::Generic),
        Some(n) => plugin_for(n),
    }
}

/// The text of the error for a dialect name that no dialect answers to.
pub open spec fn unsupported_dialect_text(name: Seq<char>) -> Seq<char> {
    "sql parser error: "@ + ("unsupported SQL dialect: "@ + name)
}

/// Finds the dialect that `dialect` names, or the error that names no dialect was found.
pub fn find_plugin(dialect: &str) -> (r: Result<SqlDialect, ParserError>)
    ensures
        match plugin_for(dialect@) {
            Some(d) => r == Ok::<SqlDialect, ParserError>(d),
            None => r matches Err(e) && parser_error_text(e) == unsupported_dialect_text(dialect@),
        },
{
    match lookup_dialect(dialect) {
        Some(d) => Ok(d),
        None => {
            let mut message = "unsupported SQL dialect: ".to_owned();
            message.append(dialect);
            Err(new_parser_error(message))
        },
    }
}

/// Parses `sql` into statements, in the dialect that `dialect` names, or in the generic
/// dialect when no name is given.
pub fn parse_sql(sql: &str, dialect: Option<&str>) -> (r: Result<Vec<Statement>, ParserError>)
    ensures
        match selected_dialect(name_view(dialect)) {
            Some(d) => outcome_view(r) == parsed_sql(d, sql@),
            None => r matches Err(e) && parser_error_text(e) == unsupported_dialect_text(
                dialect.unwrap()@,
            ),
        },
{
    let plugin = match dialect {
        Some(name) => match find_plugin(name) {
            Ok(d) => d,
            Err(e) => return Err(e),
        },
        None => SqlDialect::Generic,
    };
    run_parser(plugin, sql)
}

/// Naming the generic dialect selects the same dialect as naming none.
pub proof fn lemma_generic_is_default()
    ensures
        selected_dialect(Some("generic"@)) == selected_dialect(None),
{
    crate::dialect::lemma_dialect_found_by_name(SqlDialect::Generic);
}

/// A dialect name selects the dialect whose own name it matches up to ASCII case, and
/// the query is then parsed in exactly that dialect.
pub proof fn lemma_name_selects_its_dialect(name: Seq<char>, d: SqlDialect)
    requires
        eq_ignore_ascii_case(name, dialect_name(d)),
    ensures
        selected_dialect(Some(name)) == Some(d),
{
    lemma_dialect_found_by_name(d);
    lemma_lookup_ignores_ascii_case(name, dialect_name(d));
}

/// Each dialect's own name selects that dialect.
pub proof fn lemma_own_name_selects_dialect(d: SqlDialect)
    ensures
        selected_dialect(Some(dialect_name(d))) == Some(d),
{
    lemma_dialect_found_by_name(d);
}

} // verus!
