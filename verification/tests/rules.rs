use capsa::rule_scan::{collect_rule_errors, validate_sql_query_rules, MatchContext};
use capsa::rule_table::{Rule, RuleTable, RuleTableError, VECTORSCAN_DOTALL_FLAG};

const TABLE: &str = "message\tpattern\n\
Sensitive column; protect or mask it\t(?i)create\\s+table[^;]*(password|secret)\n\
SELECT *; list required columns\t(?i)select\\s+\\*\n\
DROP DATABASE; require backup and approval\t(?i)drop\\s+database\n\
UPDATE without WHERE; add filter\t(?i)update\\s+[^;]*\\bset\\b(?![^;]*\\bwhere\\b)\n\
Lowercase keyword; uppercase keywords\t\\b(select|from|where)\\b\n";

fn table() -> RuleTable {
    RuleTable::from_tsv(TABLE).expect("rule table")
}

#[test]
fn vectorscan_rule_arrays_share_ordering() {
    let table = table();
    assert_eq!(table.rules().len(), table.rule_count());
    assert_eq!(table.patterns().len(), table.rule_count());
    assert_eq!(table.pattern_ids().len(), table.rule_count());

    for (index, rule) in table.rules().iter().enumerate() {
        assert_eq!(rule.id as usize, index);
        assert_eq!(table.pattern_ids()[index] as usize, index);
    }
}

#[test]
fn rules_keep_the_order_and_fields_of_their_lines() {
    let table = table();
    assert_eq!(table.rule_count(), 5);
    assert_eq!(
        table.rules()[1],
        Rule { id: 1, message: "SELECT *; list required columns" }
    );
    assert_eq!(table.patterns()[2], "(?i)drop\\s+database");
    assert!(table.pattern_flags().iter().all(|flag| *flag == VECTORSCAN_DOTALL_FLAG));
    assert_eq!(VECTORSCAN_DOTALL_FLAG, 2);
    assert_eq!(table.rule(4).unwrap().message, "Lowercase keyword; uppercase keywords");
    assert_eq!(table.rule(5), None);
}

#[test]
fn crlf_line_endings_are_accepted() {
    let table = RuleTable::from_tsv("message\tpattern\r\nA\ta+\r\nB\tb+").unwrap();
    assert_eq!(table.rule_count(), 2);
    assert_eq!(table.rules()[0].message, "A");
    assert_eq!(table.patterns()[0], "a+");
    assert_eq!(table.patterns()[1], "b+");
}

#[test]
fn a_carriage_return_without_line_feed_stays_in_the_pattern() {
    let table = RuleTable::from_tsv("message\tpattern\nA\ta+\r").unwrap();
    assert_eq!(table.patterns()[0], "a+\r");
}

#[test]
fn table_errors_name_the_first_bad_line() {
    assert_eq!(RuleTable::from_tsv("").err(), Some(RuleTableError::MissingHeader));
    assert_eq!(
        RuleTable::from_tsv("msg\tpattern\nA\ta").err(),
        Some(RuleTableError::MissingHeader)
    );
    assert_eq!(RuleTable::from_tsv("message\tpattern\n").err(), Some(RuleTableError::NoRules));
    assert_eq!(RuleTable::from_tsv("message\tpattern").err(), Some(RuleTableError::NoRules));
    assert_eq!(
        RuleTable::from_tsv("message\tpattern\nA\ta\nno tab here\nB\tb").err(),
        Some(RuleTableError::InvalidRow { line: 3 })
    );
    assert_eq!(
        RuleTable::from_tsv("message\tpattern\nA\ta\tb").err(),
        Some(RuleTableError::InvalidRow { line: 2 })
    );
    assert_eq!(
        RuleTable::from_tsv("message\tpattern\n\ta").err(),
        Some(RuleTableError::InvalidRow { line: 2 })
    );
    assert_eq!(
        RuleTable::from_tsv("message\tpattern\nA\t").err(),
        Some(RuleTableError::InvalidRow { line: 2 })
    );
    assert_eq!(
        RuleTable::from_tsv("message\tpattern\nA\ta\0").err(),
        Some(RuleTableError::InvalidRow { line: 2 })
    );
    assert_eq!(
        RuleTable::from_tsv("message\tpattern\nA\ta\n\n").err(),
        Some(RuleTableError::InvalidRow { line: 3 })
    );
}

#[test]
fn every_reported_match_of_a_known_rule_adds_its_message() {
    let table = table();
    let errors = collect_rule_errors(&table, &[1, 2, 1]).unwrap();
    assert_eq!(
        errors,
        vec![
            "SELECT *; list required columns",
            "DROP DATABASE; require backup and approval",
            "SELECT *; list required columns",
        ]
    );
    let count = errors.iter().filter(|e| **e == "SELECT *; list required columns").count();
    assert!(count >= 2);
}

#[test]
fn reports_of_unknown_ids_are_ignored() {
    let table = table();
    assert_eq!(collect_rule_errors(&table, &[7, 99]), None);
    assert_eq!(collect_rule_errors(&table, &[]), None);
    assert_eq!(collect_rule_errors(&table, &[42, 3]), Some(vec!["UPDATE without WHERE; add filter"]));
}

#[test]
fn an_empty_query_has_no_rule_findings() {
    let table = table();
    assert_eq!(validate_sql_query_rules("", &table, &[1]), None);
    assert_eq!(validate_sql_query_rules(" ", &table, &[]), None);
    assert_eq!(
        validate_sql_query_rules("SELECT * FROM orders; DROP DATABASE prod;", &table, &[1, 2]),
        Some(vec![
            "SELECT *; list required columns",
            "DROP DATABASE; require backup and approval",
        ])
    );
}

#[test]
fn match_context_records_in_report_order() {
    let table = table();
    let mut context = MatchContext::new();
    context.on_match(&table, 9);
    context.on_match(&table, 4);
    context.on_match(&table, 0);
    assert_eq!(
        context.into_errors(),
        Some(vec!["Lowercase keyword; uppercase keywords", "Sensitive column; protect or mask it"])
    );
    assert_eq!(MatchContext::new().into_errors(), None);
}

#[test]
fn successive_runs_of_reports_concatenate() {
    let table = table();
    let first = collect_rule_errors(&table, &[0, 8]).unwrap_or_default();
    let second = collect_rule_errors(&table, &[3, 1]).unwrap_or_default();
    let both = collect_rule_errors(&table, &[0, 8, 3, 1]).unwrap_or_default();
    let joined: Vec<&str> = first.into_iter().chain(second).collect();
    assert_eq!(both, joined);
}
