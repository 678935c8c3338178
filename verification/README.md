# capsa

SQL validation for queries before they ship, written in Verus.

- `src/dialect.rs`, `src/text.rs`: the supported SQL dialects and their lookup by name,
  which ignores ASCII case.
- `src/sqlparser_api.rs`: the calls into `sqlparser` and the contracts trusted of them.
- `src/parse.rs`, `src/schema.rs`: parsing a query in a dialect, and schema findings.
- `src/rule_table.rs`: the rule table, read from its tab-separated text
  (`message<TAB>pattern` header, one rule per line).
- `src/rule_scan.rs`: rule findings from the pattern ids that a scan reports.
- `src/cli.rs`: command-line arguments, and the combined findings.
- `app/`: the `capsa` command: argument reading, threads, the Vectorscan scanner (a C
  library linked in), and printing. The rule table is read from the file named by the
  `CAPSA_RULES` environment variable (`rules.tsv` when unset).
