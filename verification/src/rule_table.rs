//! The rule table: rules read from a tab-separated table of messages and patterns.
//!
//! The table starts with the header line `message<TAB>pattern`; every further line holds
//! one rule, its message and its pattern separated by one tab. Rules are numbered from 0
//! in the order of their lines, and every pattern is compiled with the dot-all flag.

use crate::text::{find_char, first_index, lemma_first_index_at, lemma_first_index_bound, str_eq};
use vstd::prelude::*;

verus! {

/// The pattern flag that lets `.` match newlines too.
pub const VECTORSCAN_DOTALL_FLAG: u32 = 2;

/// A rule: its number in the table and the message reported when its pattern matches.
#[derive(Clone, Copy, Debug, PartialEq, Eq)]
pub struct Rule {
    pub id: u32,
    pub message: &'static str,
}

/// Why a rule table was refused.
#[derive(Clone, Copy, Debug, PartialEq, Eq, Structural)]
pub enum RuleTableError {
    /// The first line is not `message<TAB>pattern`.
    MissingHeader,
    /// The line with this number (counted from 1, the header being line 1) is not a
    /// message and a pattern, both non-empty, separated by exactly one tab, without NUL.
    InvalidRow { line: usize },
    /// The table holds no rule.
    NoRules,
    /// The table holds more rules than a `u32` can number.
    TooManyRules,
}

/// The text of the line that starts `s`: up to the first line feed, without the carriage
/// return that may stand before that line feed.
pub open spec fn line_text(s: Seq<char>) -> Seq<char> {
    let e = first_index(s, '\n');
    if e < s.len() && e > 0 && s[e - 1] == '\r' {
        s.take(e - 1)
    } else {
        s.take(e as int)
    }
}

/// What follows the line that starts `s` and its line feed.
pub open spec fn after_line(s: Seq<char>) -> Seq<char> {
    let e = first_index(s, '\n');
    if e < s.len() {
        s.skip((e + 1) as int)
    } else {
        Seq::empty()
    }
}

/// The message and the pattern of a rule line, when it is a valid one.
pub open spec fn row_fields(line: Seq<char>) -> Option<(Seq<char>, Seq<char>)> {
    let t = first_index(line, '\t');
    if t >= line.len() {
        None
    } else {
        let message = line.take(t as int);
        let pattern = line.skip((t + 1) as int);
        if message.len() > 0 && pattern.len() > 0 && !pattern.contains('\t') && !message.contains(
            '\0',
        ) && !pattern.contains('\0') {
            Some((message, pattern))
        } else {
            None
        }
    }
}

/// The rules of the lines of `s`, the first of which has number `line`; or the error
/// for the first line that is not a valid rule.
pub open spec fn rows_from(s: Seq<char>, line: nat) -> Result<
    Seq<(Seq<char>, Seq<char>)>,
    RuleTableError,
>
    decreases s.len(),
{
    if s.len() == 0 {
        Ok(Seq::empty())
    } else {
        proof {
            lemma_first_index_bound(s, '\n');
        }
        match row_fields(line_text(s)) {
            None => Err(RuleTableError::InvalidRow { line: line as usize }),
            Some(row) => match rows_from(after_line(s), line + 1) {
                Ok(rest) => Ok(seq![row] + rest),
                Err(e) => Err(e),
            },
        }
    }
}

/// The rules (message, pattern) that a table text defines, or why it is refused.
pub open spec fn rule_rows(s: Seq<char>) -> Result<Seq<(Seq<char>, Seq<char>)>, RuleTableError> {
    if s.len() == 0 || line_text(s) != "message\tpattern"@ {
        Err(RuleTableError::MissingHeader)
    } else {
        match rows_from(after_line(s), 2) {
            Err(e) => Err(e),
            Ok(rows) => if rows.len() == 0 {
                Err(RuleTableError::NoRules)
            } else if rows.len() > u32::MAX {
                Err(RuleTableError::TooManyRules)
            } else {
                Ok(rows)
            },
        }
    }
}

/// `prefix` put in front of the rules of an outcome, errors passed on.
pub open spec fn prepend_rows(
    prefix: Seq<(Seq<char>, Seq<char>)>,
    r: Result<Seq<(Seq<char>, Seq<char>)>, RuleTableError>,
) -> Result<Seq<(Seq<char>, Seq<char>)>, RuleTableError> {
    match r {
        Ok(rest) => Ok(prefix + rest),
        Err(e) => Err(e),
    }
}

proof fn lemma_prepend_rows_assoc(
    a: Seq<(Seq<char>, Seq<char>)>,
    b: Seq<(Seq<char>, Seq<char>)>,
    r: Result<Seq<(Seq<char>, Seq<char>)>, RuleTableError>,
)
    ensures
        prepend_rows(a, prepend_rows(b, r)) == prepend_rows(a + b, r),
{
    if let Ok(rest) = r {
        assert(a + (b + rest) =~= (a + b) + rest);
    }
}

/// A field of a rule line: not empty, and free of tabs, NUL and line feeds. It may hold
/// spaces and any other character.
pub open spec fn is_rule_field(t: Seq<char>) -> bool {
    &&& t.len() > 0
    &&& !t.contains('\t')
    &&& !t.contains('\0')
    &&& !t.contains('\n')
}

proof fn lemma_rule_line_fields(m: Seq<char>, p: Seq<char>)
    requires
        is_rule_field(m),
        is_rule_field(p),
    ensures
        row_fields(m + seq!['\t'] + p) == Some((m, p)),
        forall|k: int| 0 <= k < (m + seq!['\t'] + p).len() ==> (m + seq!['\t'] + p)[k] != '\n',
{
    let line = m + seq!['\t'] + p;
    assert forall|k: int| 0 <= k < m.len() implies line[k] != '\t' by {
        assert(line[k] == m[k]);
        if m[k] == '\t' {
            assert(m.contains('\t'));
        }
    }
    assert(line[m.len() as int] == '\t');
    lemma_first_index_at(line, '\t', m.len() as int);
    assert(line.take(m.len() as int) =~= m);
    assert(line.skip((m.len() + 1) as int) =~= p);
    assert forall|k: int| 0 <= k < line.len() implies line[k] != '\n' by {
        if k < m.len() {
            assert(line[k] == m[k]);
            if m[k] == '\n' {
                assert(m.contains('\n'));
            }
        } else if k > m.len() {
            assert(line[k] == p[k - m.len() - 1]);
            if p[k - m.len() - 1] == '\n' {
                assert(p.contains('\n'));
            }
        }
    }
}

/// A rule line ended by a line feed is read as the rule whose message is everything
/// before its first tab and whose pattern is everything after that tab up to the line
/// end, spaces included; the lines after it are read on, numbered from the next number.
pub proof fn lemma_rule_line_read_whole(m: Seq<char>, p: Seq<char>, rest: Seq<char>, line: nat)
    requires
        is_rule_field(m),
        is_rule_field(p),
        p.last() != '\r',
    ensures
        rows_from(m + seq!['\t'] + p + seq!['\n'] + rest, line) == prepend_rows(
            seq![(m, p)],
            rows_from(rest, line + 1),
        ),
{
    let l = m + seq!['\t'] + p;
    let s = l + seq!['\n'] + rest;
    lemma_rule_line_fields(m, p);
    assert forall|k: int| 0 <= k < l.len() implies s[k] != '\n' by {
        assert(s[k] == l[k]);
    }
    assert(s[l.len() as int] == '\n');
    lemma_first_index_at(s, '\n', l.len() as int);
    assert(s[(l.len() - 1) as int] == p.last());
    assert(s.take(l.len() as int) =~= l);
    assert(s.skip((l.len() + 1) as int) =~= rest);
}

/// A rule line ended by a carriage return and a line feed is read the same way: the
/// carriage return belongs to the line ending, not to the pattern.
pub proof fn lemma_rule_line_crlf_read_whole(m: Seq<char>, p: Seq<char>, rest: Seq<char>, line: nat)
    requires
        is_rule_field(m),
        is_rule_field(p),
    ensures
        rows_from(m + seq!['\t'] + p + seq!['\r', '\n'] + rest, line) == prepend_rows(
            seq![(m, p)],
            rows_from(rest, line + 1),
        ),
{
    let l = m + seq!['\t'] + p;
    let s = l + seq!['\r', '\n'] + rest;
    lemma_rule_line_fields(m, p);
    assert forall|k: int| 0 <= k < l.len() + 1 implies s[k] != '\n' by {
        if k < l.len() {
            assert(s[k] == l[k]);
        } else {
            assert(s[k] == '\r');
        }
    }
    assert(s[(l.len() + 1) as int] == '\n');
    lemma_first_index_at(s, '\n', (l.len() + 1) as int);
    assert(s[l.len() as int] == '\r');
    assert(s.take(l.len() as int) =~= l);
    assert(s.skip((l.len() + 2) as int) =~= rest);
}

/// The last rule line, with no line ending after it, is read whole, to the end of the text.
pub proof fn lemma_last_rule_line_read_whole(m: Seq<char>, p: Seq<char>, line: nat)
    requires
        is_rule_field(m),
        is_rule_field(p),
    ensures
        rows_from(m + seq!['\t'] + p, line) == Ok::<
            Seq<(Seq<char>, Seq<char>)>,
            RuleTableError,
        >(seq![(m, p)]),
{
    let l = m + seq!['\t'] + p;
    lemma_rule_line_fields(m, p);
    lemma_first_index_at(l, '\n', l.len() as int);
    assert(l.take(l.len() as int) =~= l);
    assert(rows_from(Seq::<char>::empty(), line + 1) == Ok::<
        Seq<(Seq<char>, Seq<char>)>,
        RuleTableError,
    >(Seq::empty()));
    assert(seq![(m, p)] + Seq::<(Seq<char>, Seq<char>)>::empty() =~= seq![(m, p)]);
}

/// A table of the header and one rule line defines exactly that rule, with its whole
/// message and its whole pattern.
pub proof fn lemma_one_rule_table(m: Seq<char>, p: Seq<char>)
    requires
        is_rule_field(m),
        is_rule_field(p),
        p.last() != '\r',
    ensures
        rule_rows("message\tpattern"@ + seq!['\n'] + m + seq!['\t'] + p + seq!['\n']) == Ok::<
            Seq<(Seq<char>, Seq<char>)>,
            RuleTableError,
        >(seq![(m, p)]),
{
    reveal_strlit("message\tpattern");
    let h = "message\tpattern"@;
    let body = m + seq!['\t'] + p + seq!['\n'];
    let s = h + seq!['\n'] + body;
    assert(s =~= "message\tpattern"@ + seq!['\n'] + m + seq!['\t'] + p + seq!['\n']);
    assert(s =~= h + seq!['\n'] + (m + seq!['\t'] + p + seq!['\n'] + Seq::<char>::empty()));
    assert forall|k: int| 0 <= k < h.len() implies s[k] != '\n' by {
        assert(s[k] == h[k]);
    }
    assert(s[h.len() as int] == '\n');
    lemma_first_index_at(s, '\n', h.len() as int);
    assert(s.take(h.len() as int) =~= h);
    assert(s.skip((h.len() + 1) as int) =~= m + seq!['\t'] + p + seq!['\n'] + Seq::<char>::empty());
    assert(s[(h.len() - 1) as int] == h[(h.len() - 1) as int]);
    assert(h[(h.len() - 1) as int] == 'n');
    assert(line_text(s) == h);
    assert(after_line(s) == m + seq!['\t'] + p + seq!['\n'] + Seq::<char>::empty());
    lemma_rule_line_read_whole(m, p, Seq::<char>::empty(), 2);
    assert(rows_from(Seq::<char>::empty(), 3) == Ok::<
        Seq<(Seq<char>, Seq<char>)>,
        RuleTableError,
    >(Seq::empty()));
    assert(seq![(m, p)] + Seq::<(Seq<char>, Seq<char>)>::empty() =~= seq![(m, p)]);
    assert(rows_from(after_line(s), 2) == Ok::<
        Seq<(Seq<char>, Seq<char>)>,
        RuleTableError,
    >(seq![(m, p)]));
    assert(rule_rows(s) == Ok::<Seq<(Seq<char>, Seq<char>)>, RuleTableError>(seq![(m, p)]));
}

/// A line without a tab is not a rule: reading stops there with the error that names
/// that line's number.
pub proof fn lemma_line_without_tab_rejected(l: Seq<char>, rest: Seq<char>, line: nat)
    requires
        !l.contains('\t'),
        !l.contains('\n'),
    ensures
        rows_from(l + seq!['\n'] + rest, line) == Err::<Seq<(Seq<char>, Seq<char>)>, RuleTableError>(
            RuleTableError::InvalidRow { line: line as usize },
        ),
{
    let s = l + seq!['\n'] + rest;
    assert forall|k: int| 0 <= k < l.len() implies s[k] != '\n' by {
        assert(s[k] == l[k]);
        if l[k] == '\n' {
            assert(l.contains('\n'));
        }
    }
    assert(s[l.len() as int] == '\n');
    lemma_first_index_at(s, '\n', l.len() as int);
    let t = line_text(s);
    assert(t.len() <= l.len());
    assert forall|k: int| 0 <= k < t.len() implies t[k] != '\t' by {
        assert(t[k] == l[k]);
        if l[k] == '\t' {
            assert(l.contains('\t'));
        }
    }
    lemma_first_index_at(t, '\t', t.len() as int);
}

/// A table with the header and no rule line is refused for holding no rule.
pub proof fn lemma_header_alone_has_no_rules()
    ensures
        rule_rows("message\tpattern"@) == Err::<Seq<(Seq<char>, Seq<char>)>, RuleTableError>(
            RuleTableError::NoRules,
        ),
        rule_rows("message\tpattern"@ + seq!['\n']) == Err::<
            Seq<(Seq<char>, Seq<char>)>,
            RuleTableError,
        >(RuleTableError::NoRules),
{
    reveal_strlit("message\tpattern");
    let h = "message\tpattern"@;
    lemma_first_index_at(h, '\n', h.len() as int);
    assert(h.take(h.len() as int) =~= h);
    let s = h + seq!['\n'];
    assert forall|k: int| 0 <= k < h.len() implies s[k] != '\n' by {
        assert(s[k] == h[k]);
    }
    lemma_first_index_at(s, '\n', h.len() as int);
    assert(s[(h.len() - 1) as int] == 'n');
    assert(s.take(h.len() as int) =~= h);
    assert(s.skip((h.len() + 1) as int) =~= Seq::<char>::empty());
}

/// An empty text has no header.
pub proof fn lemma_empty_table_has_no_header()
    ensures
        rule_rows(Seq::empty()) == Err::<Seq<(Seq<char>, Seq<char>)>, RuleTableError>(
            RuleTableError::MissingHeader,
        ),
{
}

/// The line that starts at `pos`: where its text ends and where the next line starts.
fn scan_line(s: &str, n: usize, pos: usize) -> (r: (usize, usize))
    requires
        n == s@.len(),
        pos < n,
    ensures
        pos <= r.0 < r.1 + 1,
        pos < r.1 <= n,
        s@.subrange(pos as int, r.0 as int) == line_text(s@.subrange(pos as int, n as int)),
        s@.subrange(r.1 as int, n as int) == after_line(s@.subrange(pos as int, n as int)),
{
    let ghost rest = s@.subrange(pos as int, n as int);
    let j = find_char(s, pos, n, '\n');
    proof {
        assert forall|k: int| 0 <= k < j - pos implies rest[k] != '\n' by {
            assert(rest[k] == s@[pos + k]);
        }
        if j < n {
            assert(rest[j - pos] == s@[j as int]);
        }
        lemma_first_index_at(rest, '\n', j - pos);
    }
    let end = if j < n && j > pos && s.get_char(j - 1) == '\r' {
        proof {
            assert(rest[j - pos - 1] == s@[j - 1]);
        }
        j - 1
    } else {
        proof {
            if j < n && j > pos {
                assert(rest[j - pos - 1] == s@[j - 1]);
            }
        }
        j
    };
    let next = if j < n {
        j + 1
    } else {
        n
    };
    assert(s@.subrange(pos as int, end as int) =~= line_text(rest));
    assert(s@.subrange(next as int, n as int) =~= after_line(rest));
    (end, next)
}

/// Whether `c` occurs in `s` at or after `from` and before `to`.
fn has_char(s: &str, from: usize, to: usize, c: char) -> (r: bool)
    requires
        from <= to <= s@.len(),
    ensures
        r == s@.subrange(from as int, to as int).contains(c),
{
    let k = find_char(s, from, to, c);
    let ghost sub = s@.subrange(from as int, to as int);
    if k < to {
        assert(sub[k - from] == c);
        true
    } else {
        assert forall|i: int| 0 <= i < sub.len() implies sub[i] != c by {
            assert(sub[i] == s@[from + i]);
        }
        false
    }
}

/// Splits the rule line `s[start..end]`: the position of the tab that separates its
/// message from its pattern, when the line is a valid rule.
fn scan_row(s: &str, start: usize, end: usize) -> (r: Option<usize>)
    requires
        start <= end <= s@.len(),
    ensures
        match row_fields(s@.subrange(start as int, end as int)) {
            None => r is None,
            Some(f) => r matches Some(t) && start <= t < end && f.0 == s@.subrange(
                start as int,
                t as int,
            ) && f.1 == s@.subrange(t + 1, end as int),
        },
{
    let ghost line = s@.subrange(start as int, end as int);
    let t = find_char(s, start, end, '\t');
    proof {
        assert forall|k: int| 0 <= k < t - start implies line[k] != '\t' by {
            assert(line[k] == s@[start + k]);
        }
        if t < end {
            assert(line[t - start] == s@[t as int]);
        }
        lemma_first_index_at(line, '\t', t - start);
    }
    if t == end {
        return None;
    }
    assert(line.take(t - start) =~= s@.subrange(start as int, t as int));
    assert(line.skip(t - start + 1) =~= s@.subrange(t + 1, end as int));
    if t == start || t + 1 == end {
        return None;
    }
    if has_char(s, t + 1, end, '\t') || has_char(s, start, t, '\0') || has_char(
        s,
        t + 1,
        end,
        '\0',
    ) {
        return None;
    }
    Some(t)
}

/// A parsed rule table: the rules, and beside them the patterns, the pattern ids and the
/// pattern flags that the scanner is compiled with, all in the same order.
pub struct RuleTable {
    rules: Vec<Rule>,
    patterns: Vec<&'static str>,
    pattern_ids: Vec<u32>,
    pattern_flags: Vec<u32>,
}

impl RuleTable {
    /// The four arrays have one entry per rule, there is at least one rule and at most as
    /// many as a `u32` can number, rule `i` and pattern id `i` are `i`, and every pattern
    /// flag is the dot-all flag.
    #[verifier::type_invariant]
    spec fn well_formed(self) -> bool {
        &&& self.rules@.len() == self.patterns@.len()
        &&& self.rules@.len() == self.pattern_ids@.len()
        &&& self.rules@.len() == self.pattern_flags@.len()
        &&& 0 < self.rules@.len() <= u32::MAX
        &&& forall|i: int| 0 <= i < self.rules@.len() ==> #[trigger] self.rules@[i].id == i
        &&& forall|i: int| 0 <= i < self.pattern_ids@.len() ==> #[trigger] self.pattern_ids@[i] == i
        &&& forall|i: int|
            0 <= i < self.pattern_flags@.len() ==> #[trigger] self.pattern_flags@[i]
                == VECTORSCAN_DOTALL_FLAG
    }

    /// The rules as (message, pattern) pairs, in the order of their numbers.
    pub closed spec fn rows(&self) -> Seq<(Seq<char>, Seq<char>)> {
        Seq::new(self.rules@.len(), |i: int| (self.rules@[i].message@, self.patterns@[i]@))
    }

    /// Reads a rule table from its tab-separated text.
    pub fn from_tsv(input: &'static str) -> (r: Result<RuleTable, RuleTableError>)
        requires
            input@.len() < usize::MAX,
        ensures
            match rule_rows(input@) {
                Ok(rows) => r matches Ok(t) && t.rows() == rows,
                Err(e) => r == Err::<RuleTable, RuleTableError>(e),
            },
    {
        let n = input.unicode_len();
        if n == 0 {
            return Err(RuleTableError::MissingHeader);
        }
        let (header_end, first_row) = scan_line(input, n, 0);
        assert(input@.subrange(0, n as int) =~= input@);
        let header = input.substring_char(0, header_end);
        if !str_eq(header, "message\tpattern") {
            return Err(RuleTableError::MissingHeader);
        }
        let ghost body = input@.subrange(first_row as int, n as int);
        assert(line_text(input@) == "message\tpattern"@);
        let mut messages: Vec<&'static str> = Vec::new();
        let mut patterns: Vec<&'static str> = Vec::new();
        let mut pos = first_row;
        let mut line: usize = 2;
        while pos < n
            invariant
                n == input@.len(),
                n < usize::MAX,
                0 < first_row <= pos <= n,
                body == input@.subrange(first_row as int, n as int),
                line_text(input@) == "message\tpattern"@,
                after_line(input@) == body,
                messages@.len() == patterns@.len(),
                line == messages@.len() + 2,
                messages@.len() + 1 <= pos,
                rows_from(body, 2) == prepend_rows(
                    Seq::new(
                        messages@.len(),
                        |i: int| (messages@[i]@, patterns@[i]@),
                    ),
                    rows_from(input@.subrange(pos as int, n as int), line as nat),
                ),
            decreases n - pos,
        {
            let ghost rest = input@.subrange(pos as int, n as int);
            let ghost prefix = Seq::new(messages@.len(), |i: int| (messages@[i]@, patterns@[i]@));
            let (end, next) = scan_line(input, n, pos);
            proof {
                lemma_first_index_bound(rest, '\n');
            }
            match scan_row(input, pos, end) {
                None => {
                    assert(rows_from(rest, line as nat) == Err::<
                        Seq<(Seq<char>, Seq<char>)>,
                        RuleTableError,
                    >(RuleTableError::InvalidRow { line }));
                    return Err(RuleTableError::InvalidRow { line });
                },
                Some(t) => {
                    let message = input.substring_char(pos, t);
                    let pattern = input.substring_char(t + 1, end);
                    messages.push(message);
                    patterns.push(pattern);
                    assert(Seq::new(messages@.len(), |i: int| (messages@[i]@, patterns@[i]@))
                        =~= prefix + seq![(message@, pattern@)]);
                    assert(rows_from(rest, line as nat) == prepend_rows(
                        seq![(message@, pattern@)],
                        rows_from(input@.subrange(next as int, n as int), (line + 1) as nat),
                    ));
                    proof {
                        lemma_prepend_rows_assoc(
                            prefix,
                            seq![(message@, pattern@)],
                            rows_from(input@.subrange(next as int, n as int), (line + 1) as nat),
                        );
                    }
                },
            }
            pos = next;
            line = line + 1;
        }
        assert(input@.subrange(pos as int, n as int) =~= Seq::<char>::empty());
        let count = messages.len();
        if count == 0 {
            return Err(RuleTableError::NoRules);
        }
        if count > 4294967295usize {
            return Err(RuleTableError::TooManyRules);
        }
        let mut rules: Vec<Rule> = Vec::new();
        let mut pattern_ids: Vec<u32> = Vec::new();
        let mut pattern_flags: Vec<u32> = Vec::new();
        let mut i: usize = 0;
        while i < count
            invariant
                count == messages@.len(),
                count <= u32::MAX,
                i <= count,
                rules@.len() == i,
                pattern_ids@.len() == i,
                pattern_flags@.len() == i,
                forall|k: int|
                    #![trigger rules@[k]]
                    0 <= k < i ==> rules@[k].id == k && rules@[k].message == messages@[k],
                forall|k: int| 0 <= k < i ==> #[trigger] pattern_ids@[k] == k,
                forall|k: int| 0 <= k < i ==> #[trigger] pattern_flags@[k] == VECTORSCAN_DOTALL_FLAG,
            decreases count - i,
        {
            rules.push(Rule { id: i as u32, message: messages[i] });
            pattern_ids.push(i as u32);
            pattern_flags.push(VECTORSCAN_DOTALL_FLAG);
            i = i + 1;
        }
        let table = RuleTable { rules, patterns, pattern_ids, pattern_flags };
        assert(table.rows() =~= Seq::new(messages@.len(), |i: int| (messages@[i]@, patterns@[i]@)));
        Ok(table)
    }

    /// The number of rules.
    pub fn rule_count(&self) -> (n: usize)
        ensures
            n == self.rows().len(),
            0 < n <= u32::MAX,
    {
        proof {
            use_type_invariant(self);
        }
        self.rules.len()
    }

    /// The rules, in the order of their numbers: rule `i` has number `i`.
    pub fn rules(&self) -> (r: &[Rule])
        ensures
            r@.len() == self.rows().len(),
            forall|i: int|
                #![trigger r@[i]]
                0 <= i < r@.len() ==> r@[i].id == i && r@[i].message@ == self.rows()[i].0,
    {
        proof {
            use_type_invariant(self);
        }
        self.rules.as_slice()
    }

    /// The patterns, pattern `i` belonging to rule `i`.
    pub fn patterns(&self) -> (r: &[&'static str])
        ensures
            r@.len() == self.rows().len(),
            forall|i: int| 0 <= i < r@.len() ==> #[trigger] r@[i]@ == self.rows()[i].1,
    {
        proof {
            use_type_invariant(self);
        }
        self.patterns.as_slice()
    }

    /// The id that each pattern reports its matches with: pattern `i` reports `i`.
    pub fn pattern_ids(&self) -> (r: &[u32])
        ensures
            r@.len() == self.rows().len(),
            forall|i: int| 0 <= i < r@.len() ==> #[trigger] r@[i] == i,
    {
        proof {
            use_type_invariant(self);
        }
        self.pattern_ids.as_slice()
    }

    /// The flags that each pattern is compiled with: the dot-all flag for every one.
    pub fn pattern_flags(&self) -> (r: &[u32])
        ensures
            r@.len() == self.rows().len(),
            forall|i: int| 0 <= i < r@.len() ==> #[trigger] r@[i] == VECTORSCAN_DOTALL_FLAG,
    {
        proof {
            use_type_invariant(self);
        }
        self.pattern_flags.as_slice()
    }

    /// The rule with number `id`, if there is one.
    pub fn rule(&self, id: u32) -> (r: Option<Rule>)
        ensures
            (id as int) < self.rows().len() ==> (r matches Some(rule) && rule.id == id
                && rule.message@ == self.rows()[id as int].0),
            (id as int) >= self.rows().len() ==> r is None,
    {
        proof {
            use_type_invariant(self);
        }
        let index = id as usize;
        if index < self.rules.len() {
            Some(self.rules[index])
        } else {
            None
        }
    }
}

} // verus!
