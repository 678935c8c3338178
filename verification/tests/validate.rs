use capsa::schema::{schema_findings, validate_sql_query_schema};
use sqlparser::parser::ParserError;

#[test]
fn accepts_valid_sql() {
    assert_eq!(validate_sql_query_schema("SELECT 1", None), None);
}

#[test]
fn rejects_invalid_sql() {
    assert!(validate_sql_query_schema("SELECT FROM", None).is_some());
}

#[test]
fn rejects_unknown_dialect() {
    assert_eq!(
        validate_sql_query_schema("SELECT 1", Some("unknown")),
        Some(vec![String::from(
            "sql parser error: unsupported SQL dialect: unknown"
        )])
    );
}

#[test]
fn invalid_sql_yields_one_finding_with_the_parser_text() {
    let findings = validate_sql_query_schema("SELECT FROM", None).unwrap();
    assert_eq!(findings.len(), 1);
    assert!(findings[0].starts_with("sql parser error: "));
}

#[test]
fn dialect_names_are_matched_without_regard_to_ascii_case() {
    assert_eq!(validate_sql_query_schema("SELECT 1", Some("PostGres")), None);
    assert_eq!(validate_sql_query_schema("SELECT 1", Some("GENERIC")), None);
}

#[test]
fn unknown_dialect_text_keeps_the_given_name() {
    assert_eq!(
        validate_sql_query_schema("SELECT 1", Some("PostgreSQL")),
        Some(vec![String::from(
            "sql parser error: unsupported SQL dialect: PostgreSQL"
        )])
    );
}

#[test]
fn schema_findings_of_a_parse_error_is_its_display_text() {
    let outcome = Err(ParserError::ParserError(String::from("Expected: end of statement")));
    assert_eq!(
        schema_findings(outcome),
        Some(vec![String::from("sql parser error: Expected: end of statement")])
    );
    let outcome = Err(ParserError::RecursionLimitExceeded);
    assert_eq!(
        schema_findings(outcome),
        Some(vec![String::from("sql parser error: recursion limit exceeded")])
    );
}

#[test]
fn schema_findings_of_parsed_statements_is_none() {
    assert_eq!(schema_findings(Ok(Vec::new())), None);
}

#[test]
fn dialect_specific_syntax_is_checked_in_the_named_dialect() {
    assert_eq!(validate_sql_query_schema("SELECT * FROM `users`", Some("mysql")), None);
    assert_eq!(validate_sql_query_schema("SELECT TOP 10 * FROM t", Some("mssql")), None);
}
