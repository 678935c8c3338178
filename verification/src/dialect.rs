//! The SQL dialects that queries can be parsed in, and their lookup by name.

use crate::text::{ascii_lower, eq_ignore_ascii_case, str_eq_ignore_ascii_case};
use vstd::prelude::*;

verus! {

/// A dialect that queries can be parsed in.
#[derive(Clone, Copy, Debug, PartialEq, Eq, Structural)]
pub enum SqlDialect {
    Generic,
    Ansi,
    BigQuery,
    ClickHouse,
    Databricks,
    DuckDb,
    Hive,
    MsSql,
    MySql,
    Postgres,
    Redshift,
    Snowflake,
    Sqlite,
}


/// The dialects in the order in which a name is looked up; the generic dialect comes first.
pub open spec fn plugin_dialects() -> Seq<SqlDialect> {
    seq![
        SqlDialect::Generic,
        SqlDialect::Ansi,
        SqlDialect::BigQuery,
        SqlDialect::ClickHouse,
        SqlDialect::Databricks,
        SqlDialect::DuckDb,
        SqlDialect::Hive,
        SqlDialect::MsSql,
        SqlDialect::MySql,
        SqlDialect::Postgres,
        SqlDialect::Redshift,
        SqlDialect::Snowflake,
        SqlDialect::Sqlite,
    ]
}

/// The name under which a dialect is selected.
pub open spec fn dialect_name(d: SqlDialect) -> Seq<char> {
    match d {
        SqlDialect::Generic => "generic"@,
        SqlDialect::Ansi => "ansi"@,
        SqlDialect::BigQuery => "bigquery"@,
        SqlDialect::ClickHouse => "clickhouse"@,
        SqlDialect::Databricks => "databricks"@,
        SqlDialect::DuckDb => "duckdb"@,
        SqlDialect::Hive => "hive"@,
        SqlDialect::MsSql => "mssql"@,
        SqlDialect::MySql => "mysql"@,
        SqlDialect::Postgres => "postgres"@,
        SqlDialect::Redshift => "redshift"@,
        SqlDialect::Snowflake => "snowflake"@,
        SqlDialect::Sqlite => "sqlite"@,
    }
}

/// The first dialect, from position `i` of the lookup order on, whose name matches
/// `name` up to ASCII case.
pub open spec fn plugin_from(i: nat, name: Seq<char>) -> Option<SqlDialect>
    decreases 13 - i,
{
    if i >= 13 {
        None
    } else if eq_ignore_ascii_case(dialect_name(plugin_dialects()[i as int]), name) {
        Some(plugin_dialects()[i as int])
    } else {
        plugin_from(i + 1, name)
    }
}

/// The dialect that a name selects, if any.
pub open spec fn plugin_for(name: Seq<char>) -> Option<SqlDialect> {
    plugin_from(0, name)
}

impl SqlDialect {
    /// The name under which this dialect is selected.
    pub fn name(&self) -> (r: &'static str)
        ensures
            r@ == dialect_name(*self),
    {
        match self {
            SqlDialect::Generic => "generic",
            SqlDialect::Ansi => "ansi",
            SqlDialect::BigQuery => "bigquery",
            SqlDialect::ClickHouse => "clickhouse",
            SqlDialect::Databricks => "databricks",
            SqlDialect::DuckDb => "duckdb",
            SqlDialect::Hive => "hive",
            SqlDialect::MsSql => "mssql",
            SqlDialect::MySql => "mysql",
            SqlDialect::Postgres => "postgres",
            SqlDialect::Redshift => "redshift",
            SqlDialect::Snowflake => "snowflake",
            SqlDialect::Sqlite => "sqlite",
        }
    }
}

fn plugin_at(i: usize) -> (d: SqlDialect)
    requires
        i < 13,
    ensures
        d == plugin_dialects()[i as int],
{
    match i {
        0 => SqlDialect::Generic,
        1 => SqlDialect::Ansi,
        2 => SqlDialect::BigQuery,
        3 => SqlDialect::ClickHouse,
        4 => SqlDialect::Databricks,
        5 => SqlDialect::DuckDb,
        6 => SqlDialect::Hive,
        7 => SqlDialect::MsSql,
        8 => SqlDialect::MySql,
        9 => SqlDialect::Postgres,
        10 => SqlDialect::Redshift,
        11 => SqlDialect::Snowflake,
        _ => SqlDialect::Sqlite,
    }
}

/// Finds the dialect whose name matches `name` up to ASCII case.
pub fn lookup_dialect(name: &str) -> (r: Option<SqlDialect>)
    ensures
        r == plugin_for(name@),
{
    let mut i: usize = 0;
    while i < 13
        invariant
            i <= 13,
            plugin_for(name@) == plugin_from(i as nat, name@),
        decreases 13 - i,
    {
        let d = plugin_at(i);
        if str_eq_ignore_ascii_case(d.name(), name) {
            return Some(d);
        }
        i = i + 1;
    }
    None
}

proof fn lemma_plugin_from_respects_case(i: nat, a: Seq<char>, b: Seq<char>)
    requires
        eq_ignore_ascii_case(a, b),
    ensures
        plugin_from(i, a) == plugin_from(i, b),
    decreases 13 - i,
{
    if i < 13 {
        let n = dialect_name(plugin_dialects()[i as int]);
        assert(eq_ignore_ascii_case(n, a) <==> eq_ignore_ascii_case(n, b)) by {
            if eq_ignore_ascii_case(n, a) {
                assert forall|j: int| 0 <= j < n.len() implies #[trigger] ascii_lower(n[j])
                    == ascii_lower(b[j]) by {
                    assert(ascii_lower(a[j]) == ascii_lower(b[j]));
                }
            }
            if eq_ignore_ascii_case(n, b) {
                assert forall|j: int| 0 <= j < n.len() implies #[trigger] ascii_lower(n[j])
                    == ascii_lower(a[j]) by {
                    assert(ascii_lower(a[j]) == ascii_lower(b[j]));
                }
            }
        }
        lemma_plugin_from_respects_case(i + 1, a, b);
    }
}

/// Dialect lookup ignores ASCII case: two names that differ only in the case of ASCII
/// letters select the same dialect, or both select none.
pub proof fn lemma_lookup_ignores_ascii_case(a: Seq<char>, b: Seq<char>)
    requires
        eq_ignore_ascii_case(a, b),
    ensures
        plugin_for(a) == plugin_for(b),
{
    lemma_plugin_from_respects_case(0, a, b);
}

/// Every dialect is selected by its own name.
pub proof fn lemma_dialect_found_by_name(d: SqlDialect)
    ensures
        plugin_for(dialect_name(d)) == Some(d),
{
    reveal_strlit("generic");
    reveal_strlit("ansi");
    reveal_strlit("bigquery");
    reveal_strlit("clickhouse");
    reveal_strlit("databricks");
    reveal_strlit("duckdb");
    reveal_strlit("hive");
    reveal_strlit("mssql");
    reveal_strlit("mysql");
    reveal_strlit("postgres");
    reveal_strlit("redshift");
    reveal_strlit("snowflake");
    reveal_strlit("sqlite");
    assert(ascii_lower("hive"@[0]) != ascii_lower("ansi"@[0]));
    assert(ascii_lower("postgres"@[0]) != ascii_lower("bigquery"@[0]));
    assert(ascii_lower("redshift"@[0]) != ascii_lower("bigquery"@[0]));
    assert(ascii_lower("redshift"@[0]) != ascii_lower("postgres"@[0]));
    assert(ascii_lower("databricks"@[0]) != ascii_lower("clickhouse"@[0]));
    assert(ascii_lower("sqlite"@[0]) != ascii_lower("duckdb"@[0]));
    assert(ascii_lower("mysql"@[1]) != ascii_lower("mssql"@[1]));
    reveal_with_fuel(plugin_from, 14);
}

proof fn lemma_plugin_from_matches(i: nat, name: Seq<char>)
    ensures
        plugin_from(i, name) matches Some(d) ==> eq_ignore_ascii_case(dialect_name(d), name),
    decreases 13 - i,
{
    if i < 13 {
        lemma_plugin_from_matches(i + 1, name);
    }
}

/// A name selects only a dialect whose own name it matches up to ASCII case.
pub proof fn lemma_selected_dialect_matches_name(name: Seq<char>)
    ensures
        plugin_for(name) matches Some(d) ==> eq_ignore_ascii_case(dialect_name(d), name),
{
    lemma_plugin_from_matches(0, name);
}

} // verus!
