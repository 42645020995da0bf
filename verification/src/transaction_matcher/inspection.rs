//! Looking into a rule set: which of its rules match a text, what a
//! template rule captures in it, and the posting of a record that exactly
//! one rule matches.
//!
//! Building entries goes by the first rule that matches and never fails for
//! several. What is here serves to find the rules that overlap, so that
//! their patterns can be tightened.

use vstd::prelude::*;
use crate::date::date_text;
use crate::money::amount_text;
use crate::pattern::{
    capture_names, captured_groups, captures, group_names, is_hit_list, pattern_matches,
    set_matches, strings_view,
};
use crate::source_record::{SourceRecord, SourceRecordView};
use crate::template::{named_captures, pair_named_captures, pairs_view};
use crate::text::{push_char, push_spaces, spaces};
use super::definitions::{
    rule_patterns, rules_view, AccountMap, FinancialImporter, TransactionMatcher, TransactionMatcherView,
    TransactionRule, TransactionRuleView,
};
use super::matcher::{
    lemma_selection_is_deterministic, resolve_account, EntryError, EntryErrorView,
};

verus! {

/// The positions of the patterns that match, in ascending order.
pub open spec fn all_hits(patterns: Seq<Seq<char>>, haystack: Seq<char>) -> Seq<usize>
    decreases patterns.len(),
{
    if patterns.len() == 0 {
        Seq::empty()
    } else {
        let before = all_hits(patterns.drop_last(), haystack);
        if pattern_matches(patterns.last(), haystack) {
            before.push((patterns.len() - 1) as usize)
        } else {
            before
        }
    }
}

/// The positions of the patterns that match are a hit list.
pub proof fn lemma_all_hits(patterns: Seq<Seq<char>>, haystack: Seq<char>)
    requires
        patterns.len() <= usize::MAX,
    ensures
        is_hit_list(patterns, haystack, all_hits(patterns, haystack)),
    decreases patterns.len(),
{
    if patterns.len() > 0 {
        let fewer = patterns.drop_last();
        let before = all_hits(fewer, haystack);
        let hits = all_hits(patterns, haystack);
        let last = (patterns.len() - 1) as usize;
        lemma_all_hits(fewer, haystack);
        assert forall|k: int| 0 <= k < hits.len() implies (#[trigger] hits[k]) < patterns.len()
            && pattern_matches(patterns[hits[k] as int], haystack) by {
            if k < before.len() {
                assert(before[k] < fewer.len());
                assert(fewer[before[k] as int] == patterns[before[k] as int]);
            }
        }
        assert forall|j: int, k: int| 0 <= j < k < hits.len() implies hits[j] < hits[k] by {
            assert(before[j] < fewer.len());
        }
        assert forall|i: int|
            0 <= i < patterns.len() && #[trigger] pattern_matches(
                patterns[i],
                haystack,
            ) implies hits.contains(i as usize) by {
            if i < fewer.len() {
                assert(fewer[i] == patterns[i]);
                assert(before.contains(i as usize));
                let k = choose|k: int| 0 <= k < before.len() && before[k] == i as usize;
                assert(hits[k] == i as usize);
            } else {
                assert(hits[hits.len() - 1] == last);
            }
        }
    }
}

/// The names of the rules at the positions `hits`.
pub open spec fn names_at(rules: Seq<TransactionRuleView>, hits: Seq<usize>) -> Seq<Seq<char>> {
    hits.map_values(|hit: usize| rules[hit as int].name)
}

/// The names of the rules that collide on a description: of all rules
/// that match it, where more than one does.
pub open spec fn colliding_names(matcher: TransactionMatcherView, description: Seq<char>) -> Seq<
    Seq<char>,
> {
    let hits = all_hits(rule_patterns(matcher.rules), description);
    if hits.len() > 1 {
        names_at(matcher.rules, hits)
    } else {
        Seq::empty()
    }
}

/// Which rules of a set match a text.
#[derive(Debug)]
pub enum RuleMatch {
    /// No rule matches.
    NoMatch,
    /// The rule at this position matches, and no other.
    Single { rule: usize },
    /// The rules at these positions match, in the order of the set.
    Multiple { rules: Vec<usize> },
}

impl RuleMatch {
    /// The positions of the rules that match, in ascending order.
    pub open spec fn hits(self) -> Seq<usize> {
        match self {
            RuleMatch::NoMatch => Seq::empty(),
            RuleMatch::Single { rule } => seq![rule],
            RuleMatch::Multiple { rules } => rules@,
        }
    }
}

/// Tells from the positions of the rules that matched how many did.
pub fn classify_hits(hits: Vec<usize>) -> (found: RuleMatch)
    ensures
        found.hits() == hits@,
        found is NoMatch <==> hits@.len() == 0,
        found is Single <==> hits@.len() == 1,
{
    if hits.len() == 0 {
        assert(hits@ =~= Seq::empty());
        RuleMatch::NoMatch
    } else if hits.len() == 1 {
        assert(hits@ =~= seq![hits@[0]]);
        RuleMatch::Single { rule: hits[0] }
    } else {
        RuleMatch::Multiple { rules: hits }
    }
}

/// The text of the posting of a record by a rule: the day and the payee
/// as it is written, then a line for each of the two accounts, with the
/// amount and with its opposite.
pub open spec fn posting_text(
    rule: TransactionRuleView,
    accounts: Map<Seq<char>, String>,
    record: SourceRecordView,
) -> Seq<char> {
    (date_text(record.date).push(' ') + rule.payee).push('\n') + (spaces(4)
        + accounts[rule.account1]@ + spaces(29) + amount_text(record.amount)).push('\n') + (spaces(
        4,
    ) + accounts[rule.account2]@ + spaces(28) + amount_text(-record.amount)).push('\n')
}

/// The posting of a record by a rule, or the alias that is not known.
pub open spec fn rule_posting(
    rule: TransactionRuleView,
    accounts: Map<Seq<char>, String>,
    record: SourceRecordView,
) -> Result<Seq<char>, EntryErrorView> {
    if !accounts.dom().contains(rule.account1) {
        Err(EntryErrorView::UnknownAlias { alias: rule.account1 })
    } else if !accounts.dom().contains(rule.account2) {
        Err(EntryErrorView::UnknownAlias { alias: rule.account2 })
    } else {
        Ok(posting_text(rule, accounts, record))
    }
}

/// The posting of a record when `hits` are the positions of the rules
/// that match it: none for no rule, the posting of the rule for one, and
/// an error for several.
pub open spec fn posting_for_hits(
    matcher: TransactionMatcherView,
    accounts: Map<Seq<char>, String>,
    record: SourceRecordView,
    hits: Seq<usize>,
) -> Result<Option<Seq<char>>, EntryErrorView> {
    if hits.len() == 0 {
        Ok(None)
    } else if hits.len() == 1 {
        match rule_posting(matcher.rules[hits[0] as int], accounts, record) {
            Ok(text) => Ok(Some(text)),
            Err(e) => Err(e),
        }
    } else {
        Err(EntryErrorView::TooManyMatches)
    }
}

/// The content of what posting a record returned.
pub open spec fn posting_result_view(result: Result<Option<String>, EntryError>) -> Result<
    Option<Seq<char>>,
    EntryErrorView,
> {
    match result {
        Ok(Some(text)) => Ok(Some(text@)),
        Ok(None) => Ok(None),
        Err(e) => Err(e@),
    }
}

/// What a template rule captures in a text: `None` for a rule whose payee
/// is no template or whose pattern does not match, else the groups that
/// have a name and took part in the match.
pub open spec fn captured_variables(rule: TransactionRuleView, input: Seq<char>) -> Option<
    Seq<(Seq<char>, Seq<char>)>,
> {
    if !rule.payee_is_template {
        None
    } else {
        match captured_groups(rule.pattern, input) {
            None => None,
            Some(values) => Some(named_captures(group_names(rule.pattern), values)),
        }
    }
}

impl TransactionRule {
    /// Lists what the pattern of a template rule captures in `input`, by
    /// the names of the groups.
    pub fn captured_variables(&self, input: &str) -> (variables: Option<Vec<(String, String)>>)
        ensures
            match variables {
                Some(pairs) => captured_variables(self@, input@) == Some(pairs_view(pairs@)),
                None => captured_variables(self@, input@) is None,
            },
    {
        if !self.payee_is_template() {
            return None;
        }
        match self.pattern() {
            None => None,
            Some(pattern) => match captures(pattern, input) {
                None => None,
                Some(values) => {
                    let names = capture_names(pattern);
                    Some(pair_named_captures(&names, &values))
                },
            },
        }
    }

    /// Writes the posting of a record by this rule, with the payee as it
    /// is written. Fails if the registry does not know an alias.
    pub fn posting_for_record(&self, account_map: &AccountMap, record: &SourceRecord) -> (result:
        Result<String, EntryError>)
        ensures
            match result {
                Ok(text) => rule_posting(self@, account_map@, record@) == Ok::<
                    Seq<char>,
                    EntryErrorView,
                >(text@),
                Err(e) => rule_posting(self@, account_map@, record@) == Err::<
                    Seq<char>,
                    EntryErrorView,
                >(e@),
            },
    {
        let account1 = match resolve_account(account_map, self.account1().as_str()) {
            Ok(account) => account,
            Err(e) => {
                return Err(e);
            },
        };
        let account2 = match resolve_account(account_map, self.account2().as_str()) {
            Ok(account) => account,
            Err(e) => {
                return Err(e);
            },
        };
        let formatted_pos_amount = record.formatted_amount();
        let formatted_neg_amount = record.formatted_negative_amount();
        let mut out = record.formatted_date();
        push_char(&mut out, ' ');
        out.append(self.payee().as_str());
        push_char(&mut out, '\n');
        push_spaces(&mut out, 4);
        out.append(account1.as_str());
        push_spaces(&mut out, 29);
        out.append(formatted_pos_amount.as_str());
        push_char(&mut out, '\n');
        push_spaces(&mut out, 4);
        out.append(account2.as_str());
        push_spaces(&mut out, 28);
        out.append(formatted_neg_amount.as_str());
        push_char(&mut out, '\n');
        assert(out@ =~= posting_text(self@, account_map@, record@));
        Ok(out)
    }
}

impl TransactionMatcher {
    /// Tells which rules match `input`: all of them, not the first alone.
    pub fn match_rule(&self, input: &str) -> (found: RuleMatch)
        ensures
            found.hits() == all_hits(rule_patterns(self@.rules), input@),
            found is NoMatch <==> found.hits().len() == 0,
            found is Single <==> found.hits().len() == 1,
    {
        let rule_matches: Vec<usize> = set_matches(self.rule_patterns(), input);
        let count: usize = self.transaction_rules().len();
        proof {
            let patterns = rule_patterns(self@.rules);
            assert(is_hit_list(patterns, input@, rule_matches@));
            assert(patterns.len() == count);
            lemma_all_hits(patterns, input@);
            lemma_selection_is_deterministic(
                patterns,
                input@,
                rule_matches@,
                all_hits(patterns, input@),
            );
        }
        classify_hits(rule_matches)
    }

    /// Names the rules that collide on `input`: all rules that match it,
    /// in the order of the set, where more than one does, and none where
    /// at most one does. Building entries goes by the first of them.
    pub fn colliding_rule_names(&self, input: &str) -> (names: Vec<String>)
        ensures
            strings_view(names@) == colliding_names(self@, input@),
    {
        let found = self.match_rule(input);
        let rules = self.transaction_rules();
        let count: usize = rules.len();
        proof {
            let patterns = rule_patterns(self@.rules);
            assert(patterns.len() == count);
            lemma_all_hits(patterns, input@);
        }
        let mut names: Vec<String> = Vec::new();
        match found {
            RuleMatch::Multiple { rules: hits } => {
                let mut k: usize = 0;
                let ghost all = names_at(self@.rules, hits@);
                assert(all.take(0) =~= Seq::empty());
                assert(strings_view(names@) =~= Seq::empty());
                while k < hits.len()
                    invariant
                        k <= hits.len(),
                        rules_view(rules@) == self@.rules,
                        is_hit_list(rule_patterns(self@.rules), input@, hits@),
                        all == names_at(self@.rules, hits@),
                        strings_view(names@) == all.take(k as int),
                    decreases hits.len() - k,
                {
                    assert(hits@[k as int] < rule_patterns(self@.rules).len());
                    let name = rules[hits[k]].name().clone();
                    proof {
                        assert(name@ == all[k as int]);
                        assert(strings_view(names@.push(name)) =~= strings_view(names@).push(
                            name@,
                        ));
                        assert(all.take(k + 1) =~= all.take(k as int).push(all[k as int]));
                    }
                    names.push(name);
                    k = k + 1;
                }
                assert(all.take(k as int) =~= all);
            },
            _ => {
                assert(strings_view(names@) =~= Seq::empty());
            },
        }
        names
    }

    /// Writes the posting of a record when `found` tells which rules
    /// match it: nothing where none does, the posting of the rule where
    /// one does, and an error where several do.
    pub fn posting_for_match(
        &self,
        accounts: &AccountMap,
        record: &SourceRecord,
        found: &RuleMatch,
    ) -> (result: Result<Option<String>, EntryError>)
        requires
            found matches RuleMatch::Single { rule } ==> rule < self@.rules.len(),
            found matches RuleMatch::Multiple { rules } ==> rules@.len() > 1,
        ensures
            posting_result_view(result) == posting_for_hits(
                self@,
                accounts@,
                record@,
                found.hits(),
            ),
    {
        match found {
            RuleMatch::NoMatch => Ok(None),
            RuleMatch::Single { rule } => {
                let rule: &TransactionRule = &self.transaction_rules()[*rule];
                match rule.posting_for_record(accounts, record) {
                    Ok(posting) => Ok(Some(posting)),
                    Err(e) => Err(e),
                }
            },
            RuleMatch::Multiple { rules: _ } => Err(EntryError::TooManyMatches),
        }
    }

    /// Writes the posting of a record if exactly one rule matches it.
    /// Several rules that match are an error here: the patterns of the
    /// configuration should not overlap.
    pub fn posting_for_record(&self, accounts: &AccountMap, record: &SourceRecord) -> (result:
        Result<Option<String>, EntryError>)
        ensures
            posting_result_view(result) == posting_for_hits(
                self@,
                accounts@,
                record@,
                all_hits(rule_patterns(self@.rules), record@.description),
            ),
    {
        let found = self.match_rule(record.description.as_str());
        let count: usize = self.transaction_rules().len();
        proof {
            let patterns = rule_patterns(self@.rules);
            assert(patterns.len() == count);
            lemma_all_hits(patterns, record@.description);
        }
        self.posting_for_match(accounts, record, &found)
    }
}

impl FinancialImporter {
    /// Tells which rules of the format `file_format` match `input`.
    /// `None` if no rule set is registered under that name.
    pub fn match_rule(&self, file_format: &str, input: &str) -> (found: Option<RuleMatch>)
        ensures
            found is Some <==> self@.formats.dom().contains(file_format@),
            found matches Some(found) ==> found.hits() == all_hits(
                rule_patterns(self@.formats[file_format@]@.rules),
                input@,
            ) && (found is NoMatch <==> found.hits().len() == 0) && (found is Single
                <==> found.hits().len() == 1),
    {
        match self.import_file_definitions().get(file_format) {
            None => None,
            Some(matcher) => Some(matcher.match_rule(input)),
        }
    }

    /// Writes the posting of a record of the format `file_format` if
    /// exactly one rule matches it. Fails with `UnknownFormat` if no rule
    /// set is registered under that name, and with `TooManyMatches` if
    /// several rules match.
    pub fn posting_for_record(&self, file_format: &str, record: &SourceRecord) -> (result: Result<
        Option<String>,
        EntryError,
    >)
        ensures
            posting_result_view(result) == if self@.formats.dom().contains(file_format@) {
                posting_for_hits(
                    self@.formats[file_format@]@,
                    self@.accounts,
                    record@,
                    all_hits(
                        rule_patterns(self@.formats[file_format@]@.rules),
                        record@.description,
                    ),
                )
            } else {
                Err(EntryErrorView::UnknownFormat { name: file_format@ })
            },
    {
        match self.import_file_definitions().get(file_format) {
            None => Err(EntryError::UnknownFormat { name: String::from_str(file_format) }),
            Some(matcher) => matcher.posting_for_record(self.accounts(), record),
        }
    }
}

} // verus!
