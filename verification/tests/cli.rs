use capsa::cli::{combine_findings, parse_args, USAGE};

fn args(items: &[&str]) -> Vec<String> {
    items.iter().map(|s| s.to_string()).collect()
}

#[test]
fn reads_query_and_dialect() {
    let parsed = parse_args(args(&["-q", "SELECT * FROM users", "-d", "postgres"])).unwrap();
    assert_eq!(parsed.query, "SELECT * FROM users");
    assert_eq!(parsed.dialect.as_deref(), Some("postgres"));
}

#[test]
fn reads_long_flags_and_a_missing_dialect() {
    let parsed = parse_args(args(&["--query", "SELECT 1"])).unwrap();
    assert_eq!(parsed.query, "SELECT 1");
    assert_eq!(parsed.dialect, None);
    let parsed = parse_args(args(&["--dialect", "mysql", "--query", "SELECT 1"])).unwrap();
    assert_eq!(parsed.dialect.as_deref(), Some("mysql"));
}

#[test]
fn a_later_value_replaces_an_earlier_one() {
    let parsed = parse_args(args(&["-q", "SELECT 1", "-q", "SELECT 2", "-d", "a", "-d", "b"]))
        .unwrap();
    assert_eq!(parsed.query, "SELECT 2");
    assert_eq!(parsed.dialect.as_deref(), Some("b"));
}

#[test]
fn missing_query_gives_usage() {
    assert_eq!(parse_args(args(&["-d", "postgres"])).err().as_deref(), Some(USAGE));
    assert_eq!(parse_args(args(&[])).err().as_deref(), Some(USAGE));
    assert_eq!(parse_args(args(&["-q", ""])).err().as_deref(), Some(USAGE));
}

#[test]
fn missing_dialect_value_gives_usage() {
    let error = parse_args(args(&["-q", "SELECT * FROM users", "-d"])).err().unwrap();
    assert!(error.contains("usage: capsa"));
}

#[test]
fn unknown_flag_gives_usage() {
    assert_eq!(parse_args(args(&["-x", "1", "-q", "SELECT 1"])).err().as_deref(), Some(USAGE));
    assert_eq!(USAGE, "usage: capsa -q <query> [-d <dialect>]");
}

#[test]
fn schema_findings_come_before_rule_findings() {
    let combined = combine_findings(
        Some(vec![String::from("sql parser error: x")]),
        Some(vec!["SELECT *; list required columns", "Lowercase keyword; uppercase keywords"]),
    );
    assert_eq!(
        combined,
        vec![
            "sql parser error: x",
            "SELECT *; list required columns",
            "Lowercase keyword; uppercase keywords",
        ]
    );
    assert!(combine_findings(None, None).is_empty());
    assert_eq!(combine_findings(None, Some(vec!["a"])), vec!["a"]);
}
