//! Rule findings: the messages of the rules whose patterns matched a query.
//!
//! The scanner reports each match by the id of the pattern that matched; every report of
//! a known rule adds that rule's message, in the order of the reports.

use crate::rule_table::RuleTable;
use vstd::prelude::*;

verus! {

/// The messages that a sequence of match reports yields: one per report of a known rule,
/// in the order of the reports; reports of unknown ids add nothing.
pub open spec fn rule_errors(rows: Seq<(Seq<char>, Seq<char>)>, ids: Seq<u32>) -> Seq<Seq<char>>
    decreases ids.len(),
{
    if ids.len() == 0 {
        Seq::empty()
    } else {
        let earlier = rule_errors(rows, ids.drop_last());
        if (ids.last() as int) < rows.len() {
            earlier.push(rows[ids.last() as int].0)
        } else {
            earlier
        }
    }
}

/// A list of messages as findings: `None` when it is empty.
pub open spec fn findings_of(messages: Seq<Seq<char>>) -> Option<Seq<Seq<char>>> {
    if messages.len() == 0 {
        None
    } else {
        Some(messages)
    }
}

/// Optional messages taken by their texts.
pub open spec fn messages_view(errors: Option<Vec<&'static str>>) -> Option<Seq<Seq<char>>> {
    match errors {
        Some(v) => Some(v@.map_values(|s: &'static str| s@)),
        None => None,
    }
}

/// The state of one scan: the messages of the rules matched so far, `None` until the
/// first match of a known rule.
pub struct MatchContext {
    errors: Option<Vec<&'static str>>,
}

impl MatchContext {
    /// The messages recorded so far.
    pub closed spec fn recorded(&self) -> Option<Seq<Seq<char>>> {
        messages_view(self.errors)
    }

    /// A context with nothing recorded.
    pub fn new() -> (r: MatchContext)
        ensures
            r.recorded() is None,
    {
        MatchContext { errors: None }
    }

    /// Records a match reported for pattern `id`: the message of rule `id` is added when
    /// there is such a rule; an unknown id changes nothing.
    pub fn on_match(&mut self, table: &RuleTable, id: u32)
        ensures
            (id as int) < table.rows().len() ==> final(self).recorded() == Some(
                match old(self).recorded() {
                    Some(v) => v,
                    None => Seq::<Seq<char>>::empty(),
                }.push(table.rows()[id as int].0),
            ),
            (id as int) >= table.rows().len() ==> final(self).recorded() == old(self).recorded(),
    {
        match table.rule(id) {
            Some(rule) => {
                let mut list = match self.errors.take() {
                    Some(v) => v,
                    None => Vec::new(),
                };
                let ghost before = list@;
                list.push(rule.message);
                assert(list@.map_values(|s: &'static str| s@) =~= before.map_values(
                    |s: &'static str| s@,
                ).push(rule.message@));
                self.errors = Some(list);
            },
            None => {},
        }
    }

    /// The messages recorded, `None` when no known rule matched.
    pub fn into_errors(self) -> (r: Option<Vec<&'static str>>)
        ensures
            messages_view(r) == self.recorded(),
    {
        self.errors
    }
}

/// The findings for the match reports `matched_ids` of one scan: the messages of the known
/// rules reported, in order, or `None` when there are none.
pub fn collect_rule_errors(table: &RuleTable, matched_ids: &[u32]) -> (r: Option<Vec<&'static str>>)
    ensures
        messages_view(r) == findings_of(rule_errors(table.rows(), matched_ids@)),
{
    let mut context = MatchContext::new();
    let n = matched_ids.len();
    let mut i: usize = 0;
    while i < n
        invariant
            n == matched_ids@.len(),
            i <= n,
            context.recorded() == findings_of(
                rule_errors(table.rows(), matched_ids@.take(i as int)),
            ),
            context.recorded() matches Some(v) ==> v.len() > 0,
        decreases n - i,
    {
        context.on_match(table, matched_ids[i]);
        assert(matched_ids@.take(i + 1).drop_last() =~= matched_ids@.take(i as int));
        i = i + 1;
    }
    assert(matched_ids@.take(n as int) =~= matched_ids@);
    context.into_errors()
}

/// Rule validation of `sql`, given the match reports that scanning it gave: `None` for an
/// empty query, else the messages of the known rules reported, or `None` when there are none.
pub fn validate_sql_query_rules(sql: &str, table: &RuleTable, matched_ids: &[u32]) -> (r: Option<
    Vec<&'static str>,
>)
    ensures
        sql@.len() == 0 ==> r is None,
        sql@.len() > 0 ==> messages_view(r) == findings_of(
            rule_errors(table.rows(), matched_ids@),
        ),
{
    if sql.is_empty() {
        return None;
    }
    collect_rule_errors(table, matched_ids)
}

/// The messages of two successive runs of match reports are those of the first run
/// followed by those of the second.
pub proof fn lemma_rule_errors_concat(rows: Seq<(Seq<char>, Seq<char>)>, a: Seq<u32>, b: Seq<u32>)
    ensures
        rule_errors(rows, a + b) == rule_errors(rows, a) + rule_errors(rows, b),
    decreases b.len(),
{
    if b.len() == 0 {
        assert(a + b =~= a);
        assert(rule_errors(rows, a) + rule_errors(rows, b) =~= rule_errors(rows, a));
    } else {
        assert((a + b).drop_last() =~= a + b.drop_last());
        lemma_rule_errors_concat(rows, a, b.drop_last());
        if (b.last() as int) < rows.len() {
            assert(rule_errors(rows, a) + rule_errors(rows, b) =~= (rule_errors(rows, a)
                + rule_errors(rows, b.drop_last())).push(rows[b.last() as int].0));
        }
    }
}

/// A report of a known rule `k` (any `k` below the number of rules, the last one
/// included) adds exactly the message of rule `k` after the messages found so far.
pub proof fn lemma_report_of_known_rule(rows: Seq<(Seq<char>, Seq<char>)>, ids: Seq<u32>, k: u32)
    requires
        (k as int) < rows.len(),
    ensures
        rule_errors(rows, ids.push(k)) == rule_errors(rows, ids).push(rows[k as int].0),
        findings_of(rule_errors(rows, ids.push(k))) matches Some(f) && f.last() == rows[k as int].0,
{
    assert(ids.push(k).drop_last() =~= ids);
}

/// A report of an id that names no rule adds nothing.
pub proof fn lemma_report_of_unknown_id(rows: Seq<(Seq<char>, Seq<char>)>, ids: Seq<u32>, k: u32)
    requires
        (k as int) >= rows.len(),
    ensures
        rule_errors(rows, ids.push(k)) == rule_errors(rows, ids),
{
    assert(ids.push(k).drop_last() =~= ids);
}

/// A single report of a known rule yields exactly that rule's message as the one finding.
pub proof fn lemma_single_report(rows: Seq<(Seq<char>, Seq<char>)>, k: u32)
    requires
        (k as int) < rows.len(),
    ensures
        findings_of(rule_errors(rows, seq![k])) == Some(seq![rows[k as int].0]),
{
    lemma_report_of_known_rule(rows, Seq::empty(), k);
    assert(Seq::<u32>::empty().push(k) =~= seq![k]);
    assert(Seq::<Seq<char>>::empty().push(rows[k as int].0) =~= seq![rows[k as int].0]);
}

/// Every finding is the message of a rule, and there are no more findings than reports.
pub proof fn lemma_findings_are_rule_messages(rows: Seq<(Seq<char>, Seq<char>)>, ids: Seq<u32>)
    ensures
        rule_errors(rows, ids).len() <= ids.len(),
        forall|i: int|
            0 <= i < rule_errors(rows, ids).len() ==> exists|j: int|
                0 <= j < rows.len() && #[trigger] rule_errors(rows, ids)[i] == rows[j].0,
    decreases ids.len(),
{
    if ids.len() > 0 {
        lemma_findings_are_rule_messages(rows, ids.drop_last());
        let earlier = rule_errors(rows, ids.drop_last());
        if (ids.last() as int) < rows.len() {
            assert forall|i: int| 0 <= i < rule_errors(rows, ids).len() implies exists|j: int|
                0 <= j < rows.len() && #[trigger] rule_errors(rows, ids)[i] == rows[j].0 by {
                if i < earlier.len() {
                    assert(rule_errors(rows, ids)[i] == earlier[i]);
                } else {
                    assert(rule_errors(rows, ids)[i] == rows[ids.last() as int].0);
                }
            }
        }
    }
}

} // verus!
