use capsa::dialect::{lookup_dialect, SqlDialect};
use capsa::parse::{find_plugin, parse_sql};
use capsa::text::str_eq_ignore_ascii_case;

#[test]
fn parses_with_the_default_generic_dialect() {
    let statements = parse_sql("SELECT 1", None).expect("default generic dialect should parse");

    assert_eq!(statements.len(), 1);
}

#[test]
fn rejects_unknown_dialects() {
    let error = parse_sql("SELECT 1", Some("unknown")).expect_err("unknown dialect should fail");

    assert!(error.to_string().contains("unsupported SQL dialect"));
}

#[test]
fn parses_with_the_postgres_plugin() {
    let statements = parse_sql("SELECT $1", Some("postgres"))
        .expect("postgres dialect plugin should parse postgres placeholders");

    assert_eq!(statements.len(), 1);
}

#[test]
fn parses_with_the_mysql_plugin() {
    let statements =
        parse_sql("SELECT * FROM `users`", Some("mysql")).expect("mysql dialect should parse");

    assert_eq!(statements.len(), 1);
}

#[test]
fn parses_with_the_snowflake_plugin() {
    let statements = parse_sql("SELECT $1, identifier($2)", Some("snowflake"))
        .expect("snowflake dialect should parse snowflake placeholders");

    assert_eq!(statements.len(), 1);
}

#[test]
fn parses_several_statements() {
    let statements = parse_sql("SELECT 1; SELECT 2; DROP TABLE t", Some("ansi")).unwrap();
    assert_eq!(statements.len(), 3);
}

#[test]
fn reports_parser_errors_in_a_known_dialect() {
    let error = parse_sql("SELECT FROM", Some("sqlite")).unwrap_err();
    assert!(error.to_string().starts_with("sql parser error: "));
}

const ALL: [SqlDialect; 13] = [
    SqlDialect::Generic,
    SqlDialect::Ansi,
    SqlDialect::BigQuery,
    SqlDialect::ClickHouse,
    SqlDialect::Databricks,
    SqlDialect::DuckDb,
    SqlDialect::Hive,
    SqlDialect::MsSql,
    SqlDialect::MySql,
    SqlDialect::Postgres,
    SqlDialect::Redshift,
    SqlDialect::Snowflake,
    SqlDialect::Sqlite,
];

#[test]
fn every_dialect_is_found_by_its_name() {
    for dialect in ALL {
        assert_eq!(lookup_dialect(dialect.name()), Some(dialect));
        assert_eq!(find_plugin(&dialect.name().to_uppercase()).unwrap(), dialect);
        assert!(parse_sql("SELECT 1", Some(dialect.name())).is_ok());
    }
}

#[test]
fn dialect_names_are_the_documented_ones() {
    let names: Vec<&str> = ALL.iter().map(|d| d.name()).collect();
    assert_eq!(
        names,
        vec![
            "generic", "ansi", "bigquery", "clickhouse", "databricks", "duckdb", "hive",
            "mssql", "mysql", "postgres", "redshift", "snowflake", "sqlite"
        ]
    );
}

#[test]
fn lookup_rejects_near_misses() {
    assert_eq!(lookup_dialect("postgresql"), None);
    assert_eq!(lookup_dialect(""), None);
    assert_eq!(lookup_dialect("my sql"), None);
    assert_eq!(
        find_plugin("oracle").unwrap_err().to_string(),
        "sql parser error: unsupported SQL dialect: oracle"
    );
}

#[test]
fn ascii_case_folding_leaves_other_characters_alone() {
    assert!(str_eq_ignore_ascii_case("SnowFlake", "snowflake"));
    assert!(!str_eq_ignore_ascii_case("É", "é"));
    assert!(str_eq_ignore_ascii_case("É", "É"));
    assert!(!str_eq_ignore_ascii_case("ab", "abc"));
}
