//! Schema validation: the findings that parsing a query yields.

use crate::dialect::{plugin_for, SqlDialect};
use crate::parse::{name_view, parse_sql, selected_dialect, unsupported_dialect_text};
use crate::sqlparser_api::{outcome_view, parsed_sql, parser_error_text, parser_error_to_string};
use sqlparser::ast::Statement;
use sqlparser::parser::ParserError;
use vstd::prelude::*;

verus! {

/// A list of findings taken by the texts it holds.
pub open spec fn findings_view(findings: Option<Vec<String>>) -> Option<Seq<Seq<char>>> {
    match findings {
        Some(v) => Some(v@.map_values(|s: String| s@)),
        None => None,
    }
}

/// The findings for a parse outcome: none when it parsed, else the error's text alone.
pub open spec fn outcome_findings(outcome: Result<Seq<Statement>, ParserError>) -> Option<
    Seq<Seq<char>>,
> {
    match outcome {
        Ok(_) => None,
        Err(e) => Some(seq![parser_error_text(e)]),
    }
}

/// The findings of schema validation for a query and an optional dialect name.
pub open spec fn schema_findings_for(sql: Seq<char>, dialect: Option<Seq<char>>) -> Option<
    Seq<Seq<char>>,
> {
    match selected_dialect(dialect) {
        Some(d) => outcome_findings(parsed_sql(d, sql)),
        None => Some(seq![unsupported_dialect_text(dialect.unwrap())]),
    }
}

/// Turns a parse outcome into findings: `None` when the query parsed, else the
/// error's text as the one finding.
pub fn schema_findings(outcome: Result<Vec<Statement>, ParserError>) -> (r: Option<Vec<String>>)
    ensures
        findings_view(r) == outcome_findings(outcome_view(outcome)),
{
    match outcome {
        Ok(_) => None,
        Err(e) => {
            let text = parser_error_to_string(&e);
            let findings = vec![text];
            assert(findings@.map_values(|s: String| s@) =~= seq![parser_error_text(e)]);
            Some(findings)
        },
    }
}

/// Validates the syntax of `sql` in the dialect that `dialect` names (the generic
/// dialect when none is named): `None` when it parses, else the parser's error text.
pub fn validate_sql_query_schema(sql: &str, dialect: Option<&str>) -> (r: Option<Vec<String>>)
    ensures
        findings_view(r) == schema_findings_for(sql@, name_view(dialect)),
{
    let outcome = parse_sql(sql, dialect);
    let r = schema_findings(outcome);
    proof {
        if selected_dialect(name_view(dialect)) is None {
            let e = outcome->Err_0;
            assert(outcome_findings(outcome_view(outcome)) == Some(seq![parser_error_text(e)]));
        }
    }
    r
}

/// Schema validation finds nothing exactly when the query parses in the selected dialect.
pub proof fn lemma_no_findings_iff_parses(sql: Seq<char>, dialect: Option<Seq<char>>)
    ensures
        schema_findings_for(sql, dialect) is None <==> (selected_dialect(dialect) matches Some(d)
            && parsed_sql(d, sql) is Ok),
{
}

/// A failed parse yields one finding, and that finding is the parser error's whole
/// `Display` text, whatever its length.
pub proof fn lemma_parse_error_finding_is_full_text(e: ParserError)
    ensures
        outcome_findings(Err(e)) matches Some(f) && f.len() == 1 && f[0] == parser_error_text(e)
            && f[0].len() == parser_error_text(e).len(),
{
}

/// When the query does not parse in the selected dialect, schema validation reports the
/// parser error's whole text as its one finding.
pub proof fn lemma_schema_reports_parse_error(
    sql: Seq<char>,
    dialect: Option<Seq<char>>,
    d: SqlDialect,
    e: ParserError,
)
    requires
        selected_dialect(dialect) == Some(d),
        parsed_sql(d, sql) == Err::<Seq<Statement>, ParserError>(e),
    ensures
        schema_findings_for(sql, dialect) == Some(seq![parser_error_text(e)]),
{
}

/// When the query parses in the selected dialect, schema validation reports nothing.
pub proof fn lemma_schema_accepts_parsed_query(sql: Seq<char>, dialect: Option<Seq<char>>, d: SqlDialect)
    requires
        selected_dialect(dialect) == Some(d),
        parsed_sql(d, sql) is Ok,
    ensures
        schema_findings_for(sql, dialect) is None,
{
}

/// A dialect name that selects no dialect yields one finding: the unsupported-dialect
/// text with the whole name, whatever its length.
pub proof fn lemma_unknown_dialect_finding(sql: Seq<char>, name: Seq<char>)
    requires
        plugin_for(name) is None,
    ensures
        schema_findings_for(sql, Some(name)) == Some(
            seq!["sql parser error: unsupported SQL dialect: "@ + name],
        ),
{
    reveal_strlit("sql parser error: ");
    reveal_strlit("unsupported SQL dialect: ");
    reveal_strlit("sql parser error: unsupported SQL dialect: ");
    assert("sql parser error: "@ + ("unsupported SQL dialect: "@ + name)
        =~= "sql parser error: unsupported SQL dialect: "@ + name);
}

} // verus!
