//! Matching a record against a rule set and building its ledger entry.
//!
//! A record is tested against all patterns of a rule set at once. Where
//! several rules match, the first in the order of the configuration is
//! applied; where none does, the fallback rule is. The rule then resolves
//! its payee, names where the record came from in comments, and posts the
//! amount to its first account and the opposite amount to its second.

use vstd::prelude::*;
use crate::casing::{title_case, title_cased};
use crate::ledger_entry::{
    is_valid_entry, lemma_comments_hold_no_posting, lemma_postings_concat, lemma_postings_push,
    posting_count, posting_total, postings, validation_message, EntryLineView, LedgerEntry,
    LedgerEntryBuilder, LedgerEntryView, ValidationError,
};
use crate::pattern::{
    capture_names, captured_groups, captures, group_names, is_hit_list, pattern_matches,
    set_matches,
};
use crate::source_record::{SourceRecord, SourceRecordView};
use crate::template::{expand_template, expansion};
use super::definitions::{
    aliases_resolve, is_loaded_importer, rule_patterns, AccountMap, FinancialImporter,
    FinancialImporterView, TransactionMatcher, TransactionMatcherView, TransactionRule,
    TransactionRuleView,
};

verus! {

/// The word before the name of the rule that made an entry.
pub const MATCHING_RULE_COMMENT: &'static str = "MATCHING RULE";

/// The comment on an entry that a person has to complete.
pub const NEEDS_FINALIZED_COMMENT: &'static str = "NEEDS FINALIZED";

/// The word before the description that an entry was made from.
pub const SOURCE_COMMENT: &'static str = "SOURCE";

/// Why a record did not become a ledger entry.
#[derive(Debug)]
pub enum EntryError {
    /// The entry broke a validation rule of the builder.
    Validation(ValidationError),
    /// The account registry does not know this alias of the rule.
    UnknownAlias { alias: String },
    /// The payee is a template, and the rule's pattern does not match the
    /// description, so that there is nothing to expand it with.
    TemplateNoMatch,
    /// The payee template refers to a capture group that the pattern
    /// does not have.
    TemplateExpansionError { reference: String },
    /// The amount is the one number whose opposite cannot be posted.
    AmountOutOfRange,
    /// No rule set is registered under this format name.
    UnknownFormat { name: String },
    /// Several rules match where exactly one was asked for.
    TooManyMatches,
}

/// The mathematical content of an [`EntryError`].
pub enum EntryErrorView {
    Validation(ValidationError),
    UnknownAlias { alias: Seq<char> },
    TemplateNoMatch,
    TemplateExpansionError { reference: Seq<char> },
    AmountOutOfRange,
    UnknownFormat { name: Seq<char> },
    TooManyMatches,
}

impl View for EntryError {
    type V = EntryErrorView;

    open spec fn view(&self) -> EntryErrorView {
        match *self {
            EntryError::Validation(e) => EntryErrorView::Validation(e),
            EntryError::UnknownAlias { alias } => EntryErrorView::UnknownAlias { alias: alias@ },
            EntryError::TemplateNoMatch => EntryErrorView::TemplateNoMatch,
            EntryError::TemplateExpansionError { reference } => {
                EntryErrorView::TemplateExpansionError { reference: reference@ }
            },
            EntryError::AmountOutOfRange => EntryErrorView::AmountOutOfRange,
            EntryError::UnknownFormat { name } => EntryErrorView::UnknownFormat { name: name@ },
            EntryError::TooManyMatches => EntryErrorView::TooManyMatches,
        }
    }
}

/// What an error says of itself.
pub open spec fn entry_error_message(error: EntryErrorView) -> Seq<char> {
    match error {
        EntryErrorView::Validation(e) => validation_message(e),
        EntryErrorView::UnknownAlias { alias } => {
            "Account Alias '"@ + alias + "' is not defined."@
        },
        EntryErrorView::TemplateNoMatch => {
            "The pattern of the rule does not match the description."@
        },
        EntryErrorView::TemplateExpansionError { reference } => {
            "The payee template refers to the capture group '"@ + reference
                + "', which the pattern does not have."@
        },
        EntryErrorView::AmountOutOfRange => "The amount is out of range."@,
        EntryErrorView::UnknownFormat { name } => {
            "File format definition '"@ + name + "' not found."@
        },
        EntryErrorView::TooManyMatches => "Too many matches!"@,
    }
}

impl EntryError {
    /// The error in words.
    pub fn to_string(&self) -> (text: String)
        ensures
            text@ == entry_error_message(self@),
    {
        match self {
            EntryError::Validation(e) => e.to_string(),
            EntryError::UnknownAlias { alias } => {
                let mut out = String::from_str("Account Alias '");
                out.append(alias.as_str());
                out.append("' is not defined.");
                assert(out@ =~= entry_error_message(self@));
                out
            },
            EntryError::TemplateNoMatch => String::from_str(
                "The pattern of the rule does not match the description.",
            ),
            EntryError::TemplateExpansionError { reference } => {
                let mut out = String::from_str(
                    "The payee template refers to the capture group '",
                );
                out.append(reference.as_str());
                out.append("', which the pattern does not have.");
                assert(out@ =~= entry_error_message(self@));
                out
            },
            EntryError::AmountOutOfRange => String::from_str("The amount is out of range."),
            EntryError::UnknownFormat { name } => {
                let mut out = String::from_str("File format definition '");
                out.append(name.as_str());
                out.append("' not found.");
                assert(out@ =~= entry_error_message(self@));
                out
            },
            EntryError::TooManyMatches => String::from_str("Too many matches!"),
        }
    }
}

/// The payee that a rule gives a description: the payee as it is written,
/// or, for a template, its expansion with what the rule's pattern captures
/// in the description, in title case.
pub open spec fn payee_for(rule: TransactionRuleView, description: Seq<char>) -> Result<
    Seq<char>,
    EntryErrorView,
> {
    if !rule.payee_is_template {
        Ok(rule.payee)
    } else {
        match captured_groups(rule.pattern, description) {
            None => Err(EntryErrorView::TemplateNoMatch),
            Some(values) => match expansion(rule.payee, group_names(rule.pattern), values) {
                Ok(text) => Ok(title_cased(text)),
                Err(reference) => Err(EntryErrorView::TemplateExpansionError { reference }),
            },
        }
    }
}

/// The comments that a rule puts on an entry: where it came from, which
/// rule made it unless that was the fallback rule, and whether it needs
/// finalizing.
pub open spec fn rule_comments(rule: TransactionRuleView, description: Seq<char>) -> Seq<
    EntryLineView,
> {
    let source = seq![
        EntryLineView::Comment { comment: SOURCE_COMMENT@ + ": "@ + description },
    ];
    let matching = if rule.is_fallback {
        Seq::empty()
    } else {
        seq![EntryLineView::Comment { comment: MATCHING_RULE_COMMENT@ + ": "@ + rule.name }]
    };
    let finalize = if rule.needs_finalized {
        seq![EntryLineView::Comment { comment: NEEDS_FINALIZED_COMMENT@ }]
    } else {
        Seq::empty()
    };
    source + matching + finalize
}

/// The amount that a rule posts to its first account.
pub open spec fn first_amount(rule: TransactionRuleView, amount: int) -> int {
    if rule.negate_first_amount {
        -amount
    } else {
        amount
    }
}

/// The two postings of a rule: the amount to the first account and its
/// opposite to the second, or the other way round if the rule says so.
pub open spec fn rule_postings(
    rule: TransactionRuleView,
    accounts: Map<Seq<char>, String>,
    amount: int,
) -> Seq<EntryLineView> {
    seq![
        EntryLineView::Posting {
            account: accounts[rule.account1]@,
            amount: first_amount(rule, amount),
        },
        EntryLineView::Posting {
            account: accounts[rule.account2]@,
            amount: -first_amount(rule, amount),
        },
    ]
}

/// The entry that a rule makes of a record once the payee is resolved,
/// or the first thing that stands in its way.
pub open spec fn entry_for_payee(
    rule: TransactionRuleView,
    accounts: Map<Seq<char>, String>,
    record: SourceRecordView,
    payee: Seq<char>,
) -> Result<LedgerEntryView, EntryErrorView> {
    if !accounts.dom().contains(rule.account1) {
        Err(EntryErrorView::UnknownAlias { alias: rule.account1 })
    } else if !accounts.dom().contains(rule.account2) {
        Err(EntryErrorView::UnknownAlias { alias: rule.account2 })
    } else if record.amount == i64::MIN {
        Err(EntryErrorView::AmountOutOfRange)
    } else if payee.len() == 0 {
        Err(EntryErrorView::Validation(ValidationError::EmptyPayee))
    } else {
        Ok(
            LedgerEntryView {
                date: record.date,
                payee,
                lines: rule_comments(rule, record.description) + rule_postings(
                    rule,
                    accounts,
                    record.amount,
                ),
            },
        )
    }
}

/// The entry that a rule makes of a record.
pub open spec fn entry_for_record(
    rule: TransactionRuleView,
    accounts: Map<Seq<char>, String>,
    record: SourceRecordView,
) -> Result<LedgerEntryView, EntryErrorView> {
    match payee_for(rule, record.description) {
        Ok(payee) => entry_for_payee(rule, accounts, record, payee),
        Err(e) => Err(e),
    }
}

/// The two postings of a rule add up to nothing, and its comments add
/// nothing to that.
pub proof fn lemma_rule_lines(
    rule: TransactionRuleView,
    accounts: Map<Seq<char>, String>,
    record: SourceRecordView,
)
    ensures
        postings(rule_comments(rule, record.description) + rule_postings(
            rule,
            accounts,
            record.amount,
        )) == rule_postings(rule, accounts, record.amount),
        posting_count(
            rule_comments(rule, record.description) + rule_postings(
                rule,
                accounts,
                record.amount,
            ),
        ) == 2,
        posting_total(
            rule_comments(rule, record.description) + rule_postings(
                rule,
                accounts,
                record.amount,
            ),
        ) == 0,
{
    let comments = rule_comments(rule, record.description);
    let two = rule_postings(rule, accounts, record.amount);
    lemma_comments_hold_no_posting(comments);
    lemma_postings_concat(comments, two);
    let none = Seq::<EntryLineView>::empty();
    lemma_postings_push(none, two[0]);
    lemma_postings_push(none.push(two[0]), two[1]);
    assert(none.push(two[0]).push(two[1]) =~= two);
    assert(postings(none) + seq![two[0]] + seq![two[1]] =~= two);
    assert(postings(comments + two) =~= two);
}

/// Every entry that a rule makes is balanced: it has exactly two
/// postings, and their amounts add up to exactly zero.
pub proof fn lemma_rule_entry_balances(
    rule: TransactionRuleView,
    accounts: Map<Seq<char>, String>,
    record: SourceRecordView,
)
    ensures
        entry_for_record(rule, accounts, record) matches Ok(entry) ==> is_valid_entry(entry)
            && posting_count(entry.lines) == 2 && posting_total(entry.lines) == 0,
{
    lemma_rule_lines(rule, accounts, record);
}

/// Where a rule makes an entry of a record with the amount `A`, its
/// postings are `A` to the first account and `-A` to the second, in this
/// order; for a rule that negates the first amount they are `-A` to the
/// first account and `A` to the second.
pub proof fn lemma_rule_entry_signs(
    rule: TransactionRuleView,
    accounts: Map<Seq<char>, String>,
    record: SourceRecordView,
)
    ensures
        entry_for_record(rule, accounts, record) matches Ok(entry) ==> postings(entry.lines)
            == seq![
            EntryLineView::Posting {
                account: accounts[rule.account1]@,
                amount: if rule.negate_first_amount {
                    -record.amount
                } else {
                    record.amount
                },
            },
            EntryLineView::Posting {
                account: accounts[rule.account2]@,
                amount: if rule.negate_first_amount {
                    record.amount
                } else {
                    -record.amount
                },
            },
        ],
{
    lemma_rule_lines(rule, accounts, record);
}

/// Resolves an alias to the full name of its account. Fails with
/// `UnknownAlias` exactly if the registry does not hold the alias.
pub fn resolve_account<'a>(accounts: &'a AccountMap, alias: &str) -> (result: Result<
    &'a String,
    EntryError,
>)
    ensures
        match result {
            Ok(full_name) => accounts@.dom().contains(alias@) && *full_name == accounts@[alias@],
            Err(e) => !accounts@.dom().contains(alias@) && e@ == (EntryErrorView::UnknownAlias {
                alias: alias@,
            }),
        },
{
    match accounts.get(alias) {
        Some(full_name) => Ok(full_name),
        None => Err(EntryError::UnknownAlias { alias: String::from_str(alias) }),
    }
}

/// The content of what building an entry returned.
pub open spec fn entry_result_view(result: Result<LedgerEntry, EntryError>) -> Result<
    LedgerEntryView,
    EntryErrorView,
> {
    match result {
        Ok(entry) => Ok(entry@),
        Err(e) => Err(e@),
    }
}

/// The content of what resolving a payee returned.
pub open spec fn payee_result_view(result: Result<String, EntryError>) -> Result<
    Seq<char>,
    EntryErrorView,
> {
    match result {
        Ok(payee) => Ok(payee@),
        Err(e) => Err(e@),
    }
}

impl TransactionRule {
    /// Resolves the payee for a description. A literal payee is returned
    /// as it is. A template is expanded with what the rule's pattern
    /// captures in the description and put in title case; this fails if
    /// the pattern does not match or the template refers to a group that
    /// the pattern does not have.
    pub fn resolve_payee(&self, description: &str) -> (result: Result<String, EntryError>)
        ensures
            payee_result_view(result) == payee_for(self@, description@),
    {
        if !self.payee_is_template() {
            return Ok(self.payee().clone());
        }
        match self.pattern() {
            None => Err(EntryError::TemplateNoMatch),
            Some(pattern) => {
                match captures(pattern, description) {
                    None => Err(EntryError::TemplateNoMatch),
                    Some(values) => {
                        let names = capture_names(pattern);
                        match expand_template(self.payee().as_str(), &names, &values) {
                            Ok(text) => Ok(title_case(text.as_str())),
                            Err(reference) => Err(
                                EntryError::TemplateExpansionError { reference },
                            ),
                        }
                    },
                }
            },
        }
    }

    /// Builds the entry of a record with the payee given: the comments,
    /// then the posting to the first account and the opposite posting to
    /// the second. Fails if the registry does not know an alias, if the
    /// amount has no opposite, or if the payee is empty.
    pub fn entry_for_payee(
        &self,
        account_map: &AccountMap,
        record: &SourceRecord,
        payee: String,
    ) -> (result: Result<LedgerEntry, EntryError>)
        ensures
            entry_result_view(result) == entry_for_payee(self@, account_map@, record@, payee@),
    {
        let account1 = match resolve_account(account_map, self.account1().as_str()) {
            Ok(account) => account,
            Err(e) => {
                return Err(e);
            },
        };
        let account2 = match resolve_account(account_map, self.account2().as_str()) {
            Ok(account) => account,
            Err(e) => {
                return Err(e);
            },
        };
        if record.amount == i64::MIN {
            return Err(EntryError::AmountOutOfRange);
        }
        let mut entry_builder: LedgerEntryBuilder = LedgerEntryBuilder::new(record.date, payee);
        let ghost mut lines: Seq<EntryLineView> = Seq::empty();

        let mut source = String::from_str(SOURCE_COMMENT);
        source.append(": ");
        source.append(record.description.as_str());
        proof {
            lemma_postings_push(lines, EntryLineView::Comment { comment: source@ });
            lines = lines.push(EntryLineView::Comment { comment: source@ });
        }
        entry_builder.add_comment(source);

        if !self.is_fallback() {
            let mut matching = String::from_str(MATCHING_RULE_COMMENT);
            matching.append(": ");
            matching.append(self.name().as_str());
            proof {
                lemma_postings_push(lines, EntryLineView::Comment { comment: matching@ });
                lines = lines.push(EntryLineView::Comment { comment: matching@ });
            }
            entry_builder.add_comment(matching);
        }
        if self.needs_finalized() {
            let finalize = String::from_str(NEEDS_FINALIZED_COMMENT);
            proof {
                lemma_postings_push(lines, EntryLineView::Comment { comment: finalize@ });
                lines = lines.push(EntryLineView::Comment { comment: finalize@ });
            }
            entry_builder.add_comment(finalize);
        }
        assert(lines =~= rule_comments(self@, record@.description));
        let first: i64 = if self.negate_first_amount() {
            -record.amount
        } else {
            record.amount
        };
        proof {
            let posting1 = EntryLineView::Posting { account: account1@, amount: first as int };
            let posting2 = EntryLineView::Posting { account: account2@, amount: -first as int };
            lemma_postings_push(lines, posting1);
            lemma_postings_push(lines.push(posting1), posting2);
            lines = lines.push(posting1).push(posting2);
            assert(lines =~= rule_comments(self@, record@.description) + rule_postings(
                self@,
                account_map@,
                record@.amount,
            ));
        }
        entry_builder.add_posting(account1.clone(), first);
        entry_builder.add_posting(account2.clone(), -first);
        assert(entry_builder.content().lines == lines);
        assert(posting_count(lines) == 2);
        assert(posting_total(lines) == 0);
        match entry_builder.build() {
            Ok(entry) => Ok(entry),
            Err(e) => Err(EntryError::Validation(e)),
        }
    }

    /// Builds the ledger entry of a record by this rule.
    pub fn ledger_entry_for_source_record(
        &self,
        account_map: &AccountMap,
        record: &SourceRecord,
    ) -> (result: Result<LedgerEntry, EntryError>)
        ensures
            entry_result_view(result) == entry_for_record(self@, account_map@, record@),
    {
        match self.resolve_payee(record.description.as_str()) {
            Ok(payee) => self.entry_for_payee(account_map, record, payee),
            Err(e) => Err(e),
        }
    }
}

/// A ledger entry together with the record it was made from, marked by
/// how it came about: by a rule that matched, or by the fallback rule.
#[derive(Debug)]
pub enum GeneratedLedgerEntry<'a> {
    ByMatchedRule { ledger_entry: LedgerEntry, source_record: &'a SourceRecord },
    ByFallback { ledger_entry: LedgerEntry, source_record: &'a SourceRecord },
}

/// The mathematical content of a [`GeneratedLedgerEntry`].
pub enum GeneratedLedgerEntryView {
    ByMatchedRule { ledger_entry: LedgerEntryView, source_record: SourceRecordView },
    ByFallback { ledger_entry: LedgerEntryView, source_record: SourceRecordView },
}

impl<'a> View for GeneratedLedgerEntry<'a> {
    type V = GeneratedLedgerEntryView;

    open spec fn view(&self) -> GeneratedLedgerEntryView {
        match *self {
            GeneratedLedgerEntry::ByMatchedRule { ledger_entry, source_record } => {
                GeneratedLedgerEntryView::ByMatchedRule {
                    ledger_entry: ledger_entry@,
                    source_record: source_record@,
                }
            },
            GeneratedLedgerEntry::ByFallback { ledger_entry, source_record } => {
                GeneratedLedgerEntryView::ByFallback {
                    ledger_entry: ledger_entry@,
                    source_record: source_record@,
                }
            },
        }
    }
}

impl GeneratedLedgerEntryView {
    /// The entry, however it came about.
    pub open spec fn entry(self) -> LedgerEntryView {
        match self {
            GeneratedLedgerEntryView::ByMatchedRule { ledger_entry, .. } => ledger_entry,
            GeneratedLedgerEntryView::ByFallback { ledger_entry, .. } => ledger_entry,
        }
    }

    /// The record that the entry was made from.
    pub open spec fn record(self) -> SourceRecordView {
        match self {
            GeneratedLedgerEntryView::ByMatchedRule { source_record, .. } => source_record,
            GeneratedLedgerEntryView::ByFallback { source_record, .. } => source_record,
        }
    }
}

impl<'a> GeneratedLedgerEntry<'a> {
    /// The entry, however it came about.
    #[must_use]
    pub fn unwrap_entry(self) -> (entry: LedgerEntry)
        ensures
            entry@ == self@.entry(),
    {
        match self {
            GeneratedLedgerEntry::ByMatchedRule { ledger_entry, source_record: _ }
            | GeneratedLedgerEntry::ByFallback { ledger_entry, source_record: _ } => ledger_entry,
        }
    }

    /// The record that the entry was made from.
    #[must_use]
    pub fn unwrap_source_record(self) -> (record: &'a SourceRecord)
        ensures
            record@ == self@.record(),
    {
        match self {
            GeneratedLedgerEntry::ByMatchedRule { ledger_entry: _, source_record }
            | GeneratedLedgerEntry::ByFallback { ledger_entry: _, source_record } => source_record,
        }
    }

    /// The entry and the record that it was made from.
    #[must_use]
    pub fn unwrap(self) -> (parts: (LedgerEntry, &'a SourceRecord))
        ensures
            parts.0@ == self@.entry(),
            parts.1@ == self@.record(),
    {
        match self {
            GeneratedLedgerEntry::ByMatchedRule { ledger_entry, source_record }
            | GeneratedLedgerEntry::ByFallback { ledger_entry, source_record } => (
                ledger_entry,
                source_record,
            ),
        }
    }

    /// Whether a rule matched, rather than the fallback rule stepping in.
    #[must_use]
    pub fn is_from_matched_rule(&self) -> (matched: bool)
        ensures
            matched == (self@ is ByMatchedRule),
    {
        matches!(*self, GeneratedLedgerEntry::ByMatchedRule { .. })
    }
}

/// The position of the first pattern from `from` on that matches, or the
/// number of patterns where none does.
pub open spec fn first_hit(patterns: Seq<Seq<char>>, haystack: Seq<char>, from: int) -> int
    decreases patterns.len() - from,
{
    if from < 0 || from >= patterns.len() {
        patterns.len() as int
    } else if pattern_matches(patterns[from], haystack) {
        from
    } else {
        first_hit(patterns, haystack, from + 1)
    }
}

/// The rule of the set that applies to a description: the first in the
/// order of the configuration whose pattern matches. `None` where no
/// pattern matches, and the fallback rule applies.
pub open spec fn selected_rule(matcher: TransactionMatcherView, description: Seq<char>) -> Option<
    int,
> {
    let first = first_hit(rule_patterns(matcher.rules), description, 0);
    if first < matcher.rules.len() {
        Some(first)
    } else {
        None
    }
}

/// An entry marked by the rule that made it.
pub open spec fn generated_by(
    rule: Option<int>,
    entry: Result<LedgerEntryView, EntryErrorView>,
    record: SourceRecordView,
) -> Result<GeneratedLedgerEntryView, EntryErrorView> {
    match entry {
        Err(e) => Err(e),
        Ok(ledger_entry) => match rule {
            Some(_) => Ok(
                GeneratedLedgerEntryView::ByMatchedRule { ledger_entry, source_record: record },
            ),
            None => Ok(
                GeneratedLedgerEntryView::ByFallback { ledger_entry, source_record: record },
            ),
        },
    }
}

/// What a rule set makes of a record when `rule` is the rule to apply,
/// `None` standing for the fallback rule.
pub open spec fn generated_by_rule(
    matcher: TransactionMatcherView,
    accounts: Map<Seq<char>, String>,
    record: SourceRecordView,
    rule: Option<int>,
) -> Result<GeneratedLedgerEntryView, EntryErrorView> {
    match rule {
        Some(index) => generated_by(
            rule,
            entry_for_record(matcher.rules[index], accounts, record),
            record,
        ),
        None => generated_by(rule, entry_for_record(matcher.fallback, accounts, record), record),
    }
}

/// What a rule set makes of a record: the entry of the first rule that
/// matches its description, or that of the fallback rule.
pub open spec fn generated_entry(
    matcher: TransactionMatcherView,
    accounts: Map<Seq<char>, String>,
    record: SourceRecordView,
) -> Result<GeneratedLedgerEntryView, EntryErrorView> {
    generated_by_rule(matcher, accounts, record, selected_rule(matcher, record.description))
}

/// The rule to apply when `hits` are the positions of the rules that
/// matched, in ascending order: the first of them.
pub open spec fn rule_of_hits(hits: Seq<usize>) -> Option<int> {
    if hits.len() == 0 {
        None
    } else {
        Some(hits[0] as int)
    }
}

/// The content of what matching a record returned.
pub open spec fn generated_result_view(
    result: Result<GeneratedLedgerEntry<'_>, EntryError>,
) -> Result<GeneratedLedgerEntryView, EntryErrorView> {
    match result {
        Ok(generated) => Ok(generated@),
        Err(e) => Err(e@),
    }
}

/// From `from` on, no pattern before the first hit matches, and the first
/// hit does.
pub proof fn lemma_first_hit(patterns: Seq<Seq<char>>, haystack: Seq<char>, from: int)
    requires
        0 <= from <= patterns.len(),
    ensures
        from <= first_hit(patterns, haystack, from) <= patterns.len(),
        first_hit(patterns, haystack, from) < patterns.len() ==> pattern_matches(
            patterns[first_hit(patterns, haystack, from)],
            haystack,
        ),
        forall|i: int|
            from <= i < first_hit(patterns, haystack, from) ==> !#[trigger] pattern_matches(
                patterns[i],
                haystack,
            ),
    decreases patterns.len() - from,
{
    if from < patterns.len() && !pattern_matches(patterns[from], haystack) {
        lemma_first_hit(patterns, haystack, from + 1);
    }
}

/// The first item of a hit list is the first pattern that matches, and
/// the list is empty exactly if no pattern matches.
pub proof fn lemma_first_of_hits(patterns: Seq<Seq<char>>, haystack: Seq<char>, hits: Seq<usize>)
    requires
        is_hit_list(patterns, haystack, hits),
    ensures
        hits.len() == 0 <==> first_hit(patterns, haystack, 0) == patterns.len(),
        hits.len() > 0 ==> hits[0] == first_hit(patterns, haystack, 0),
{
    let first = first_hit(patterns, haystack, 0);
    lemma_first_hit(patterns, haystack, 0);
    if hits.len() > 0 {
        let head = hits[0];
        assert(pattern_matches(patterns[head as int], haystack));
        assert(first <= head);
        assert(hits.contains(first as usize));
        let k = choose|k: int| 0 <= k < hits.len() && hits[k] == first as usize;
        if k > 0 {
            assert(hits[0] < hits[k]);
        }
    } else {
        if first < patterns.len() {
            assert(hits.contains(first as usize));
        }
    }
}

/// Two hit lists for the same patterns and text agree item by item.
proof fn lemma_hits_agree(
    patterns: Seq<Seq<char>>,
    haystack: Seq<char>,
    one: Seq<usize>,
    other: Seq<usize>,
    k: int,
)
    requires
        is_hit_list(patterns, haystack, one),
        is_hit_list(patterns, haystack, other),
        0 <= k < one.len(),
        k < other.len(),
    ensures
        one[k] == other[k],
    decreases k,
{
    if one[k] < other[k] {
        assert(pattern_matches(patterns[one[k] as int], haystack));
        assert(other.contains(one[k]));
        let m = choose|m: int| 0 <= m < other.len() && other[m] == one[k];
        if m > k {
            assert(other[k] < other[m]);
        }
        lemma_hits_agree(patterns, haystack, one, other, m);
        assert(one[m] < one[k]);
    } else if other[k] < one[k] {
        assert(pattern_matches(patterns[other[k] as int], haystack));
        assert(one.contains(other[k]));
        let m = choose|m: int| 0 <= m < one.len() && one[m] == other[k];
        if m > k {
            assert(one[k] < one[m]);
        }
        lemma_hits_agree(patterns, haystack, one, other, m);
        assert(other[m] < other[k]);
    }
}

/// One hit list is no longer than another for the same patterns and text.
proof fn lemma_hits_no_longer(
    patterns: Seq<Seq<char>>,
    haystack: Seq<char>,
    one: Seq<usize>,
    other: Seq<usize>,
)
    requires
        is_hit_list(patterns, haystack, one),
        is_hit_list(patterns, haystack, other),
    ensures
        one.len() <= other.len(),
{
    if one.len() > other.len() {
        let extra = one[other.len() as int];
        assert(pattern_matches(patterns[extra as int], haystack));
        assert(other.contains(extra));
        let m = choose|m: int| 0 <= m < other.len() && other[m] == extra;
        lemma_hits_agree(patterns, haystack, one, other, m);
        assert(one[m] < one[other.len() as int]);
    }
}

/// Which rules match a description is settled by the patterns and the
/// description alone: any two hit lists for them are the same list, so
/// that matching the same record again selects the same rule.
pub proof fn lemma_selection_is_deterministic(
    patterns: Seq<Seq<char>>,
    haystack: Seq<char>,
    one: Seq<usize>,
    other: Seq<usize>,
)
    requires
        is_hit_list(patterns, haystack, one),
        is_hit_list(patterns, haystack, other),
    ensures
        one == other,
        rule_of_hits(one) == rule_of_hits(other),
{
    lemma_hits_no_longer(patterns, haystack, one, other);
    lemma_hits_no_longer(patterns, haystack, other, one);
    assert forall|k: int| 0 <= k < one.len() implies one[k] == other[k] by {
        lemma_hits_agree(patterns, haystack, one, other, k);
    }
    assert(one =~= other);
}

/// Where no pattern of the rules matches, no rule is selected.
pub proof fn lemma_no_hit_selects_no_rule(matcher: TransactionMatcherView, description: Seq<char>)
    ensures
        (forall|i: int|
            0 <= i < matcher.rules.len() ==> !pattern_matches(
                (#[trigger] matcher.rules[i]).pattern,
                description,
            )) <==> selected_rule(matcher, description) is None,
{
    let patterns = rule_patterns(matcher.rules);
    lemma_first_hit(patterns, description, 0);
    let first = first_hit(patterns, description, 0);
    if first < patterns.len() {
        assert(patterns[first] == matcher.rules[first].pattern);
    }
    if selected_rule(matcher, description) is None {
        assert forall|i: int| 0 <= i < matcher.rules.len() implies !pattern_matches(
            (#[trigger] matcher.rules[i]).pattern,
            description,
        ) by {
            assert(patterns[i] == matcher.rules[i].pattern);
        }
    }
}

/// Whether the fallback rule of a set can make an entry of a record at
/// all: its payee is not empty, the registry knows its two aliases, and
/// the amount has an opposite.
pub open spec fn can_fall_back(
    matcher: TransactionMatcherView,
    accounts: Map<Seq<char>, String>,
    record: SourceRecordView,
) -> bool {
    &&& matcher.fallback.payee.len() > 0
    &&& accounts.dom().contains(matcher.fallback.account1)
    &&& accounts.dom().contains(matcher.fallback.account2)
    &&& record.amount != i64::MIN
}

/// A record whose description no rule matches gets an entry by the
/// fallback rule, and no error, provided that the fallback rule can make
/// an entry at all. The payee of a fallback rule is never a template.
pub proof fn lemma_fallback_is_total(
    matcher: TransactionMatcherView,
    accounts: Map<Seq<char>, String>,
    record: SourceRecordView,
)
    requires
        selected_rule(matcher, record.description) is None,
        !matcher.fallback.payee_is_template,
        can_fall_back(matcher, accounts, record),
    ensures
        generated_entry(matcher, accounts, record) matches Ok(
            GeneratedLedgerEntryView::ByFallback { ledger_entry, source_record },
        ) && source_record == record && ledger_entry.payee == matcher.fallback.payee
            && is_valid_entry(ledger_entry),
{
    lemma_rule_lines(matcher.fallback, accounts, record);
}

/// Where a rule is selected, it is the first whose pattern matches:
/// its pattern matches the description, and that of no rule before it does.
pub proof fn lemma_selected_rule_is_first_match(
    matcher: TransactionMatcherView,
    description: Seq<char>,
)
    ensures
        selected_rule(matcher, description) matches Some(index) ==> 0 <= index
            < matcher.rules.len() && pattern_matches(matcher.rules[index].pattern, description)
            && forall|i: int|
            0 <= i < index ==> !pattern_matches((#[trigger] matcher.rules[i]).pattern, description),
{
    let patterns = rule_patterns(matcher.rules);
    lemma_first_hit(patterns, description, 0);
    let first = first_hit(patterns, description, 0);
    if first < patterns.len() {
        assert(patterns[first] == matcher.rules[first].pattern);
        assert forall|i: int| 0 <= i < first implies !pattern_matches(
            (#[trigger] matcher.rules[i]).pattern,
            description,
        ) by {
            assert(patterns[i] == matcher.rules[i].pattern);
        }
    }
}

impl TransactionMatcher {
    /// Builds the entry of a record when `rule` is the position of the
    /// rule to apply, `None` standing for the fallback rule.
    pub fn entry_by_rule<'a>(
        &self,
        accounts: &AccountMap,
        record: &'a SourceRecord,
        rule: Option<usize>,
    ) -> (result: Result<GeneratedLedgerEntry<'a>, EntryError>)
        requires
            rule matches Some(index) ==> index < self@.rules.len(),
        ensures
            generated_result_view(result) == generated_by_rule(
                self@,
                accounts@,
                record@,
                match rule {
                    Some(index) => Some(index as int),
                    None => None,
                },
            ),
    {
        match rule {
            None => {
                match self.fallback_rule().ledger_entry_for_source_record(accounts, record) {
                    Ok(ledger_entry) => Ok(
                        GeneratedLedgerEntry::ByFallback { ledger_entry, source_record: record },
                    ),
                    Err(e) => Err(e),
                }
            },
            Some(rule_index) => {
                let rule: &TransactionRule = &self.transaction_rules()[rule_index];
                match rule.ledger_entry_for_source_record(accounts, record) {
                    Ok(ledger_entry) => Ok(
                        GeneratedLedgerEntry::ByMatchedRule {
                            ledger_entry,
                            source_record: record,
                        },
                    ),
                    Err(e) => Err(e),
                }
            },
        }
    }

    /// Matches the description of a record against all rules at once and
    /// builds its entry: by the first rule that matches, in the order of
    /// the configuration, or by the fallback rule where none does. The
    /// fallback rule does not fail where it can make an entry at all.
    pub fn ledger_entry_for_source_record<'a>(
        &self,
        accounts: &AccountMap,
        record: &'a SourceRecord,
    ) -> (result: Result<GeneratedLedgerEntry<'a>, EntryError>)
        ensures
            generated_result_view(result) == generated_entry(self@, accounts@, record@),
            selected_rule(self@, record@.description) is None && can_fall_back(
                self@,
                accounts@,
                record@,
            ) ==> result matches Ok(GeneratedLedgerEntry::ByFallback { .. }),
    {
        let rule_matches: Vec<usize> = set_matches(
            self.rule_patterns(),
            record.description.as_str(),
        );
        let fallback = self.fallback_rule();
        let is_fallback = fallback.is_fallback();
        proof {
            let patterns = rule_patterns(self@.rules);
            assert(is_hit_list(patterns, record@.description, rule_matches@));
            lemma_first_of_hits(patterns, record@.description, rule_matches@);
            if selected_rule(self@, record@.description) is None && can_fall_back(
                self@,
                accounts@,
                record@,
            ) {
                lemma_fallback_is_total(self@, accounts@, record@);
            }
        }
        let rule = select_rule(&rule_matches);
        self.entry_by_rule(accounts, record, rule)
    }
}

/// Picks the rule to apply from the positions of the rules that matched,
/// which come in ascending order: the first, so that of several rules
/// that match the one that stands first in the configuration wins.
/// `None` where none matched.
pub fn select_rule(hits: &Vec<usize>) -> (rule: Option<usize>)
    ensures
        match rule {
            Some(index) => rule_of_hits(hits@) == Some(index as int),
            None => rule_of_hits(hits@) is None,
        },
{
    if hits.len() == 0 {
        None
    } else {
        Some(hits[0])
    }
}

/// What an importer makes of a record of the format `format`.
pub open spec fn importer_entry(
    importer: FinancialImporterView,
    format: Seq<char>,
    record: SourceRecordView,
) -> Result<GeneratedLedgerEntryView, EntryErrorView> {
    if importer.formats.dom().contains(format) {
        generated_entry(importer.formats[format]@, importer.accounts, record)
    } else {
        Err(EntryErrorView::UnknownFormat { name: format })
    }
}

/// An importer that was loaded never fails for want of an alias: the
/// registry knows every alias of every rule of every format.
pub proof fn lemma_loaded_importer_knows_aliases(
    importer: FinancialImporterView,
    format: Seq<char>,
    record: SourceRecordView,
)
    requires
        is_loaded_importer(importer),
    ensures
        !(importer_entry(importer, format, record) matches Err(
            EntryErrorView::UnknownAlias { .. },
        )),
{
    if importer.formats.dom().contains(format) {
        let matcher = importer.formats[format]@;
        assert(aliases_resolve(importer.accounts.dom(), matcher));
        lemma_selected_rule_is_first_match(matcher, record.description);
    }
}

impl FinancialImporter {
    /// Builds the entry of a record with the rule set of the format
    /// `file_format`. Fails with `UnknownFormat` exactly if no rule set is
    /// registered under that name, and never for want of an alias: those
    /// were all checked when the importer was loaded. A record that no
    /// rule matches always gets its entry by the fallback rule, unless the
    /// payee of that rule is empty or the amount has no opposite.
    pub fn ledger_entry_for_source_record<'a>(
        &self,
        file_format: &str,
        record: &'a SourceRecord,
    ) -> (result: Result<GeneratedLedgerEntry<'a>, EntryError>)
        ensures
            generated_result_view(result) == importer_entry(self@, file_format@, record@),
            !(result matches Err(EntryError::UnknownAlias { .. })),
            self@.formats.dom().contains(file_format@) && selected_rule(
                self@.formats[file_format@]@,
                record@.description,
            ) is None && self@.formats[file_format@]@.fallback.payee.len() > 0 && record@.amount
                != i64::MIN ==> result matches Ok(GeneratedLedgerEntry::ByFallback { .. }),
    {
        let accounts = self.accounts();
        proof {
            lemma_loaded_importer_knows_aliases(self@, file_format@, record@);
        }
        match self.import_file_definitions().get(file_format) {
            None => Err(EntryError::UnknownFormat { name: String::from_str(file_format) }),
            Some(matcher) => matcher.ledger_entry_for_source_record(accounts, record),
        }
    }
}

} // verus!
