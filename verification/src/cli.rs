//! The command line: reading the arguments, and putting the findings of both validations
//! together.

use crate::rule_scan::messages_view;
use crate::schema::findings_view;
use crate::text::str_eq;
use vstd::prelude::*;

verus! {

/// The usage line, given back for any argument list that is not understood.
pub const USAGE: &'static str = "usage: capsa -q <query> [-d <dialect>]";

/// What the command line asks for: a query, and optionally the dialect to parse it in.
pub struct Args {
    pub query: String,
    pub dialect: Option<String>,
}

/// A flag that sets the query.
pub open spec fn is_query_flag(flag: Seq<char>) -> bool {
    flag == "-q"@ || flag == "--query"@
}

/// A flag that sets the dialect.
pub open spec fn is_dialect_flag(flag: Seq<char>) -> bool {
    flag == "-d"@ || flag == "--dialect"@
}

/// The query and dialect that the arguments `args` ask for, starting from `query` and
/// `dialect`: arguments come in flag/value pairs, a later value replaces an earlier one,
/// and the query must not be empty at the end. `None` when the arguments are not understood.
pub open spec fn parsed_args(
    args: Seq<Seq<char>>,
    query: Seq<char>,
    dialect: Option<Seq<char>>,
) -> Option<(Seq<char>, Option<Seq<char>>)>
    decreases args.len(),
{
    if args.len() == 0 {
        if query.len() == 0 {
            None
        } else {
            Some((query, dialect))
        }
    } else if args.len() == 1 {
        None
    } else if is_query_flag(args[0]) {
        parsed_args(args.skip(2), args[1], dialect)
    } else if is_dialect_flag(args[0]) {
        parsed_args(args.skip(2), query, Some(args[1]))
    } else {
        None
    }
}

/// An optional text taken by its characters.
pub open spec fn opt_text(s: Option<String>) -> Option<Seq<char>> {
    match s {
        Some(t) => Some(t@),
        None => None,
    }
}

/// Arguments taken by their texts.
pub open spec fn args_view(args: Seq<String>) -> Seq<Seq<char>> {
    args.map_values(|s: String| s@)
}

/// Reads the command-line arguments (the program name left out): `-q`/`--query` and
/// `-d`/`--dialect`, each followed by its value. Gives back the usage line when a flag
/// has no value, a flag is unknown, or no non-empty query is given.
pub fn parse_args(args: Vec<String>) -> (r: Result<Args, String>)
    ensures
        match parsed_args(args_view(args@), Seq::empty(), None) {
            None => r matches Err(e) && e@ == USAGE@,
            Some((q, d)) => r matches Ok(a) && a.query@ == q && opt_text(a.dialect) == d,
        },
{
    let ghost all = args_view(args@);
    let n = args.len();
    let mut query = String::new();
    let mut dialect: Option<String> = None;
    let mut i: usize = 0;
    assert(all.skip(0) =~= all);
    while i < n
        invariant
            n == args@.len(),
            all == args_view(args@),
            i <= n,
            parsed_args(all, Seq::empty(), None) == parsed_args(
                all.skip(i as int),
                query@,
                opt_text(dialect),
            ),
        decreases n - i,
    {
        if i + 1 >= n {
            return Err(USAGE.to_owned());
        }
        let flag = args[i].as_str();
        let value = args[i + 1].clone();
        assert(all.skip(i as int)[0] == flag@);
        assert(all.skip(i as int)[1] == value@);
        assert(all.skip(i as int).skip(2) =~= all.skip(i + 2));
        if str_eq(flag, "-q") || str_eq(flag, "--query") {
            query = value;
        } else if str_eq(flag, "-d") || str_eq(flag, "--dialect") {
            dialect = Some(value);
        } else {
            return Err(USAGE.to_owned());
        }
        i = i + 2;
    }
    assert(all.skip(i as int) =~= Seq::<Seq<char>>::empty());
    if query.as_str().is_empty() {
        return Err(USAGE.to_owned());
    }
    Ok(Args { query, dialect })
}

/// An argument list with an odd number of entries leaves a flag without its value, and
/// is not understood.
pub proof fn lemma_odd_args_rejected(
    args: Seq<Seq<char>>,
    query: Seq<char>,
    dialect: Option<Seq<char>>,
)
    requires
        args.len() % 2 == 1,
    ensures
        parsed_args(args, query, dialect) is None,
    decreases args.len(),
{
    if args.len() > 1 {
        lemma_odd_args_rejected(args.skip(2), args[1], dialect);
        lemma_odd_args_rejected(args.skip(2), query, Some(args[1]));
    }
}

/// Without a query flag, no argument list is understood when starting from an empty query.
pub proof fn lemma_query_required(args: Seq<Seq<char>>, dialect: Option<Seq<char>>)
    requires
        forall|i: int| 0 <= i < args.len() ==> !is_query_flag(#[trigger] args[i]),
    ensures
        parsed_args(args, Seq::empty(), dialect) is None,
    decreases args.len(),
{
    if args.len() > 1 && is_dialect_flag(args[0]) {
        assert forall|i: int| 0 <= i < args.skip(2).len() implies !is_query_flag(
            #[trigger] args.skip(2)[i],
        ) by {
            assert(args.skip(2)[i] == args[i + 2]);
        }
        lemma_query_required(args.skip(2), Some(args[1]));
    }
}

/// After `-q` or `--query`, the next argument is the query, whatever its text (a value
/// that starts with `-` included), and reading goes on after it.
pub proof fn lemma_query_flag_takes_next_argument(
    value: Seq<char>,
    rest: Seq<Seq<char>>,
    query: Seq<char>,
    dialect: Option<Seq<char>>,
)
    ensures
        parsed_args(seq!["-q"@, value] + rest, query, dialect) == parsed_args(rest, value, dialect),
        parsed_args(seq!["--query"@, value] + rest, query, dialect) == parsed_args(
            rest,
            value,
            dialect,
        ),
{
    assert((seq!["-q"@, value] + rest).skip(2) =~= rest);
    assert((seq!["--query"@, value] + rest).skip(2) =~= rest);
}

/// After `-d` or `--dialect`, the next argument is the dialect, whatever its text (a
/// value that starts with `-` included), and reading goes on after it.
pub proof fn lemma_dialect_flag_takes_next_argument(
    value: Seq<char>,
    rest: Seq<Seq<char>>,
    query: Seq<char>,
    dialect: Option<Seq<char>>,
)
    ensures
        parsed_args(seq!["-d"@, value] + rest, query, dialect) == parsed_args(
            rest,
            query,
            Some(value),
        ),
        parsed_args(seq!["--dialect"@, value] + rest, query, dialect) == parsed_args(
            rest,
            query,
            Some(value),
        ),
{
    reveal_strlit("-q");
    reveal_strlit("--query");
    reveal_strlit("-d");
    reveal_strlit("--dialect");
    assert("-d"@[1] != "-q"@[1]);
    assert("--dialect"@.len() != "--query"@.len());
    assert("-d"@.len() != "--query"@.len());
    assert("--dialect"@.len() != "-q"@.len());
    assert((seq!["-d"@, value] + rest).skip(2) =~= rest);
    assert((seq!["--dialect"@, value] + rest).skip(2) =~= rest);
}

/// A lone query flag and a non-empty value, whatever its text, give that query and no
/// dialect.
pub proof fn lemma_query_alone(value: Seq<char>)
    requires
        value.len() > 0,
    ensures
        parsed_args(seq!["-q"@, value], Seq::empty(), None) == Some((value, None::<Seq<char>>)),
{
    lemma_query_flag_takes_next_argument(value, Seq::empty(), Seq::empty(), None);
    assert(seq!["-q"@, value] + Seq::<Seq<char>>::empty() =~= seq!["-q"@, value]);
}

/// Whatever the arguments, a query that is read is never empty.
pub proof fn lemma_read_query_is_not_empty(
    args: Seq<Seq<char>>,
    query: Seq<char>,
    dialect: Option<Seq<char>>,
)
    ensures
        parsed_args(args, query, dialect) matches Some((q, _)) ==> q.len() > 0,
    decreases args.len(),
{
    if args.len() > 1 {
        lemma_read_query_is_not_empty(args.skip(2), args[1], dialect);
        lemma_read_query_is_not_empty(args.skip(2), query, Some(args[1]));
    }
}

/// A flag other than `-q`, `--query`, `-d` and `--dialect` makes the arguments not
/// understood, whatever follows it.
pub proof fn lemma_unknown_flag_rejected(
    flag: Seq<char>,
    value: Seq<char>,
    rest: Seq<Seq<char>>,
    query: Seq<char>,
    dialect: Option<Seq<char>>,
)
    requires
        flag != "-q"@,
        flag != "--query"@,
        flag != "-d"@,
        flag != "--dialect"@,
    ensures
        parsed_args(seq![flag, value] + rest, query, dialect) is None,
{
    assert((seq![flag, value] + rest)[0] == flag);
}

/// A finding list taken as a sequence, empty when there is none.
pub open spec fn or_empty(findings: Option<Seq<Seq<char>>>) -> Seq<Seq<char>> {
    match findings {
        Some(v) => v,
        None => Seq::empty(),
    }
}

/// All findings for a query: those of schema validation first, then those of the rules.
pub fn combine_findings(schema: Option<Vec<String>>, rules: Option<Vec<&'static str>>) -> (r: Vec<
    String,
>)
    ensures
        r@.map_values(|s: String| s@) == or_empty(findings_view(schema)) + or_empty(
            messages_view(rules),
        ),
{
    let mut results = match schema {
        Some(v) => v,
        None => Vec::new(),
    };
    let ghost first = results@.map_values(|s: String| s@);
    assert(first == or_empty(findings_view(schema)));
    match rules {
        Some(messages) => {
            let n = messages.len();
            let mut i: usize = 0;
            while i < n
                invariant
                    n == messages@.len(),
                    i <= n,
                    results@.map_values(|s: String| s@) == first + messages@.take(
                        i as int,
                    ).map_values(|s: &'static str| s@),
                decreases n - i,
            {
                let ghost before = results@;
                results.push(messages[i].to_owned());
                assert(results@.map_values(|s: String| s@) =~= before.map_values(|s: String| s@).push(messages@[i as int]@));
                assert(messages@.take(i + 1).map_values(|s: &'static str| s@) =~= messages@.take(
                    i as int,
                ).map_values(|s: &'static str| s@).push(messages@[i as int]@));
                i = i + 1;
            }
            assert(messages@.take(n as int) =~= messages@);
        },
        None => {
            assert(first + Seq::<Seq<char>>::empty() =~= first);
        },
    }
    results
}

} // verus!
