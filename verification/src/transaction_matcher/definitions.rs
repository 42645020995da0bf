//! Rules, rule sets and the importer that holds them, and how each is
//! loaded from its configuration.
//!
//! Loading is where configuration mistakes surface: a pattern that does
//! not compile, and account aliases that the registry does not know. The
//! latter are gathered over all rules of all formats and reported together.

use vstd::prelude::*;
use vstd::std_specs::convert::TryFromSpecImpl;
use regex::{Regex, RegexSet};
use crate::pattern::{
    compile, compile_set, error_message, pattern_compiles, pattern_set_compiles, regex_source,
    set_patterns, strings_view,
};
use crate::string_map::StringMap;
use crate::template::{has_placeholder, is_template};

verus! {

/// The account registry: from alias to full account name.
pub type AccountMap = StringMap<String>;

/// The format registry: from the name of an input format to its rule set.
pub type ImportFileDefinitionMap = StringMap<TransactionMatcher>;

/// The name that the fallback rule goes by.
pub const FALLBACK_RULE_NAME: &'static str = "Fallback Transaction Rule";

/// The pattern of the fallback rule, which matches every description.
pub const FALLBACK_PATTERN_STRING: &'static str = ".*";

/// An account alias that a rule uses and the registry does not know.
#[derive(Debug)]
pub struct MissingAlias {
    pub alias: String,
    pub rule: String,
}

/// The mathematical content of a [`MissingAlias`].
pub struct MissingAliasView {
    pub alias: Seq<char>,
    pub rule: Seq<char>,
}

impl View for MissingAlias {
    type V = MissingAliasView;

    open spec fn view(&self) -> MissingAliasView {
        MissingAliasView { alias: self.alias@, rule: self.rule@ }
    }
}

/// What a missing alias is reported with.
pub open spec fn missing_alias_message(missing: MissingAliasView) -> Seq<char> {
    "Account Alias '"@ + missing.alias + "' from Transaction Rule '"@ + missing.rule
        + "' is not defined."@
}

/// The reports of missing aliases, each on a line of its own.
pub open spec fn missing_aliases_message(missing: Seq<MissingAliasView>) -> Seq<char>
    decreases missing.len(),
{
    if missing.len() == 0 {
        Seq::empty()
    } else {
        missing_aliases_message(missing.drop_last()) + "\n"@ + missing_alias_message(
            missing.last(),
        )
    }
}

impl MissingAlias {
    /// The report in words.
    pub fn to_string(&self) -> (text: String)
        ensures
            text@ == missing_alias_message(self@),
    {
        let mut out = String::from_str("Account Alias '");
        out.append(self.alias.as_str());
        out.append("' from Transaction Rule '");
        out.append(self.rule.as_str());
        out.append("' is not defined.");
        assert(out@ =~= missing_alias_message(self@));
        out
    }
}

/// The content of each item of a list of missing aliases.
pub open spec fn missing_view(missing: Seq<MissingAlias>) -> Seq<MissingAliasView> {
    missing.map_values(|m: MissingAlias| m@)
}

/// Why a configuration was refused.
#[derive(Debug)]
pub enum ConfigError {
    /// The pattern of the rule named `rule` does not compile; `message` is
    /// the engine's account of it.
    InvalidPattern { rule: String, message: String },
    /// Each pattern compiles, but the engine refuses them as one set.
    InvalidPatternSet { message: String },
    /// Rules use aliases that the account registry does not know: all of
    /// them, in the order of the formats and of their rules.
    UnresolvedAlias { missing: Vec<MissingAlias> },
}

/// What a configuration error says of itself.
pub open spec fn config_error_message(error: ConfigError) -> Seq<char> {
    match error {
        ConfigError::InvalidPattern { rule, message } => {
            "Invalid pattern in Transaction Rule '"@ + rule@ + "': "@ + message@
        },
        ConfigError::InvalidPatternSet { message } => {
            "The patterns cannot be compiled into one matcher: "@ + message@
        },
        ConfigError::UnresolvedAlias { missing } => {
            "One or more account alias validation errors were found:"@
                + missing_aliases_message(missing_view(missing@))
        },
    }
}

impl ConfigError {
    /// The error in words; for unresolved aliases, one line for each.
    pub fn to_string(&self) -> (text: String)
        ensures
            text@ == config_error_message(*self),
    {
        match self {
            ConfigError::InvalidPattern { rule, message } => {
                let mut out = String::from_str("Invalid pattern in Transaction Rule '");
                out.append(rule.as_str());
                out.append("': ");
                out.append(message.as_str());
                assert(out@ =~= config_error_message(*self));
                out
            },
            ConfigError::InvalidPatternSet { message } => {
                let mut out = String::from_str(
                    "The patterns cannot be compiled into one matcher: ",
                );
                out.append(message.as_str());
                out
            },
            ConfigError::UnresolvedAlias { missing } => {
                let mut out = String::from_str(
                    "One or more account alias validation errors were found:",
                );
                let ghost head = out@;
                let mut i: usize = 0;
                assert(missing_view(missing@).take(0) =~= Seq::empty());
                assert(out@ =~= head + missing_aliases_message(missing_view(missing@).take(0)));
                while i < missing.len()
                    invariant
                        i <= missing.len(),
                        out@ == head + missing_aliases_message(
                            missing_view(missing@).take(i as int),
                        ),
                    decreases missing.len() - i,
                {
                    let line = missing[i].to_string();
                    out.append("\n");
                    out.append(line.as_str());
                    proof {
                        let all = missing_view(missing@);
                        assert(all.take(i + 1).drop_last() =~= all.take(i as int));
                        assert(all.take(i + 1).last() == missing@[i as int]@);
                        assert(out@ =~= head + missing_aliases_message(all.take(i + 1)));
                    }
                    i = i + 1;
                }
                assert(missing_view(missing@).take(i as int) =~= missing_view(missing@));
                out
            },
        }
    }
}

/// A rule as the configuration states it.
pub struct TransactionRuleConfiguration {
    pub name: Option<String>,
    pub pattern_string: String,
    pub account1: String,
    pub account2: String,
    pub payee: String,
    pub needs_finalized: Option<bool>,
    pub negate_first_amount: Option<bool>,
}

/// The fallback rule as the configuration states it.
pub struct FallbackRuleConfiguration {
    pub account1: String,
    pub account2: String,
    pub payee: String,
    pub negate_first_amount: Option<bool>,
}

/// The mathematical content of a [`TransactionRule`].
pub struct TransactionRuleView {
    pub name: Seq<char>,
    pub pattern: Seq<char>,
    pub account1: Seq<char>,
    pub account2: Seq<char>,
    pub payee: Seq<char>,
    pub needs_finalized: bool,
    pub negate_first_amount: bool,
    pub payee_is_template: bool,
    pub is_fallback: bool,
}

/// The name of a rule that the configuration gives none.
pub open spec fn default_rule_name(payee: Seq<char>, pattern: Seq<char>) -> Seq<char> {
    "Payee: '"@ + payee + "' with pattern '"@ + pattern + "'."@
}

/// The value of a switch that the configuration may leave out.
pub open spec fn switch(value: Option<bool>) -> bool {
    match value {
        Some(on) => on,
        None => false,
    }
}

/// The rule that a rule configuration stands for.
pub open spec fn rule_of(config: TransactionRuleConfiguration) -> TransactionRuleView {
    TransactionRuleView {
        name: match config.name {
            Some(name) => name@,
            None => default_rule_name(config.payee@, config.pattern_string@),
        },
        pattern: config.pattern_string@,
        account1: config.account1@,
        account2: config.account2@,
        payee: config.payee@,
        needs_finalized: switch(config.needs_finalized),
        negate_first_amount: switch(config.negate_first_amount),
        payee_is_template: has_placeholder(config.payee@),
        is_fallback: false,
    }
}

/// The rule that a fallback configuration stands for: it matches
/// everything, always needs finalizing, and its payee is taken literally.
pub open spec fn fallback_rule_of(config: FallbackRuleConfiguration) -> TransactionRuleView {
    TransactionRuleView {
        name: FALLBACK_RULE_NAME@,
        pattern: FALLBACK_PATTERN_STRING@,
        account1: config.account1@,
        account2: config.account2@,
        payee: config.payee@,
        needs_finalized: true,
        negate_first_amount: switch(config.negate_first_amount),
        payee_is_template: false,
        is_fallback: true,
    }
}

/// A rule: a pattern bound to two accounts and a payee.
#[derive(Debug)]
pub struct TransactionRule {
    name: String,
    pattern_string: String,
    account1: String,
    account2: String,
    payee: String,
    needs_finalized: bool,
    negate_first_amount: bool,
    pattern: Option<Regex>,
    payee_is_template: bool,
    is_fallback: bool,
}

impl View for TransactionRule {
    type V = TransactionRuleView;

    closed spec fn view(&self) -> TransactionRuleView {
        TransactionRuleView {
            name: self.name@,
            pattern: self.pattern_string@,
            account1: self.account1@,
            account2: self.account2@,
            payee: self.payee@,
            needs_finalized: self.needs_finalized,
            negate_first_amount: self.negate_first_amount,
            payee_is_template: self.payee_is_template,
            is_fallback: self.is_fallback,
        }
    }
}

/// What holds of every rule that was loaded: a fallback rule is never a
/// template and always needs finalizing; any other rule has a pattern that
/// compiles, and is a template exactly if its payee holds a placeholder.
pub open spec fn is_loaded_rule(rule: TransactionRuleView) -> bool {
    if rule.is_fallback {
        !rule.payee_is_template && rule.needs_finalized
    } else {
        pattern_compiles(rule.pattern) && rule.payee_is_template == has_placeholder(rule.payee)
    }
}

/// The content of each rule of a list.
pub open spec fn rules_view(rules: Seq<TransactionRule>) -> Seq<TransactionRuleView> {
    rules.map_values(|rule: TransactionRule| rule@)
}

/// The pattern of each rule of a list.
pub open spec fn rule_patterns(rules: Seq<TransactionRuleView>) -> Seq<Seq<char>> {
    rules.map_values(|rule: TransactionRuleView| rule.pattern)
}

impl TransactionRuleConfiguration {
    /// A rule configuration that leaves the sign of the first amount as it is.
    pub fn new(
        name: Option<String>,
        pattern_string: String,
        account1: String,
        account2: String,
        payee: String,
        needs_finalized: Option<bool>,
    ) -> (config: Self)
        ensures
            config.name == name,
            config.pattern_string == pattern_string,
            config.account1 == account1,
            config.account2 == account2,
            config.payee == payee,
            config.needs_finalized == needs_finalized,
            config.negate_first_amount is None,
    {
        Self {
            name,
            pattern_string,
            account1,
            account2,
            payee,
            needs_finalized,
            negate_first_amount: None,
        }
    }
}

impl TransactionRule {
    #[verifier::type_invariant]
    spec fn well_formed(self) -> bool {
        &&& is_loaded_rule(self@)
        &&& self.pattern is Some <==> self.payee_is_template
        &&& self.pattern matches Some(re) ==> regex_source(&re) == self.pattern_string@
    }

    /// The name of the rule.
    pub fn name(&self) -> (name: &String)
        ensures
            name@ == self@.name,
    {
        &self.name
    }

    /// The pattern as it was written.
    pub fn pattern_string(&self) -> (pattern: &String)
        ensures
            pattern@ == self@.pattern,
    {
        &self.pattern_string
    }

    /// The alias of the first account.
    pub fn account1(&self) -> (alias: &String)
        ensures
            alias@ == self@.account1,
    {
        &self.account1
    }

    /// The alias of the second account.
    pub fn account2(&self) -> (alias: &String)
        ensures
            alias@ == self@.account2,
    {
        &self.account2
    }

    /// The payee, literal or template.
    pub fn payee(&self) -> (payee: &String)
        ensures
            payee@ == self@.payee,
    {
        &self.payee
    }

    /// Whether entries of this rule are marked for review.
    pub fn needs_finalized(&self) -> (flag: bool)
        ensures
            flag == self@.needs_finalized,
    {
        self.needs_finalized
    }

    /// Whether the first posting takes the amount with its sign reversed.
    pub fn negate_first_amount(&self) -> (flag: bool)
        ensures
            flag == self@.negate_first_amount,
    {
        self.negate_first_amount
    }

    /// Whether the payee is a template to expand.
    pub fn payee_is_template(&self) -> (flag: bool)
        ensures
            flag == self@.payee_is_template,
    {
        self.payee_is_template
    }

    /// Whether this is the rule for records that no other rule matches.
    pub fn is_fallback(&self) -> (flag: bool)
        ensures
            flag == self@.is_fallback,
            is_loaded_rule(self@),
    {
        proof {
            use_type_invariant(self);
        }
        self.is_fallback
    }

    /// The compiled pattern, which a rule keeps exactly if its payee is a
    /// template: only then are its capture groups needed.
    pub fn pattern(&self) -> (pattern: Option<&Regex>)
        ensures
            pattern is Some <==> self@.payee_is_template,
            pattern matches Some(re) ==> regex_source(re) == self@.pattern,
    {
        proof {
            use_type_invariant(self);
        }
        self.pattern.as_ref()
    }

    /// Checks that the registry knows `account_alias`, one of the two
    /// aliases of this rule.
    pub fn validate_alias(&self, account_alias: &str, accounts: &AccountMap) -> (result: Result<
        (),
        MissingAlias,
    >)
        ensures
            match result {
                Ok(()) => accounts@.dom().contains(account_alias@),
                Err(missing) => !accounts@.dom().contains(account_alias@) && missing@ == (
                MissingAliasView { alias: account_alias@, rule: self@.name }),
            },
    {
        if accounts.contains_key(account_alias) {
            Ok(())
        } else {
            Err(MissingAlias { alias: String::from_str(account_alias), rule: self.name.clone() })
        }
    }

    /// Checks both aliases of this rule against the registry.
    pub fn validate_account_aliases(&self, accounts: &AccountMap) -> (results: (
        Result<(), MissingAlias>,
        Result<(), MissingAlias>,
    ))
        ensures
            match results.0 {
                Ok(()) => accounts@.dom().contains(self@.account1),
                Err(missing) => !accounts@.dom().contains(self@.account1) && missing@ == (
                MissingAliasView { alias: self@.account1, rule: self@.name }),
            },
            match results.1 {
                Ok(()) => accounts@.dom().contains(self@.account2),
                Err(missing) => !accounts@.dom().contains(self@.account2) && missing@ == (
                MissingAliasView { alias: self@.account2, rule: self@.name }),
            },
    {
        (
            self.validate_alias(self.account1.as_str(), accounts),
            self.validate_alias(self.account2.as_str(), accounts),
        )
    }
}

impl TryFromSpecImpl<TransactionRuleConfiguration> for TransactionRule {
    /// The conversion is stated by the contract of `try_from`: its result
    /// holds a compiled pattern, of which no spec function can speak.
    open spec fn obeys_try_from_spec() -> bool {
        false
    }

    open spec fn try_from_spec(config: TransactionRuleConfiguration) -> Result<Self, ConfigError> {
        arbitrary()
    }
}

impl TryFrom<TransactionRuleConfiguration> for TransactionRule {
    type Error = ConfigError;

    /// Loads a rule. The pattern is compiled here, so that a mistake in it
    /// stops the loading: the result is `InvalidPattern`, with the rule's
    /// name, exactly if the pattern does not compile.
    fn try_from(config: TransactionRuleConfiguration) -> (result: Result<Self, ConfigError>)
        ensures
            match result {
                Ok(rule) => pattern_compiles(config.pattern_string@) && rule@ == rule_of(config),
                Err(ConfigError::InvalidPattern { rule, message }) => !pattern_compiles(
                    config.pattern_string@,
                ) && rule@ == rule_of(config).name,
                Err(_) => false,
            },
    {
        let TransactionRuleConfiguration {
            name,
            pattern_string,
            account1,
            account2,
            payee,
            needs_finalized,
            negate_first_amount,
        } = config;
        let name_string: String = match name {
            Some(name_string) => name_string,
            None => {
                let mut text = String::from_str("Payee: '");
                text.append(payee.as_str());
                text.append("' with pattern '");
                text.append(pattern_string.as_str());
                text.append("'.");
                assert(text@ =~= default_rule_name(payee@, pattern_string@));
                text
            },
        };
        let needs_finalized_bool: bool = needs_finalized.unwrap_or(false);
        let negate_first_amount_bool: bool = negate_first_amount.unwrap_or(false);
        let payee_is_template: bool = is_template(payee.as_str());
        match compile(pattern_string.as_str()) {
            Err(error) => Err(
                ConfigError::InvalidPattern { rule: name_string, message: error_message(&error) },
            ),
            Ok(pattern_re) => {
                let pattern: Option<Regex> = if payee_is_template {
                    Some(pattern_re)
                } else {
                    None
                };
                Ok(
                    TransactionRule {
                        name: name_string,
                        pattern_string,
                        account1,
                        account2,
                        payee,
                        pattern,
                        payee_is_template,
                        needs_finalized: needs_finalized_bool,
                        negate_first_amount: negate_first_amount_bool,
                        is_fallback: false,
                    },
                )
            },
        }
    }
}

impl TryFromSpecImpl<FallbackRuleConfiguration> for TransactionRule {
    /// The conversion is stated by the contract of `try_from`.
    open spec fn obeys_try_from_spec() -> bool {
        false
    }

    open spec fn try_from_spec(config: FallbackRuleConfiguration) -> Result<Self, ConfigError> {
        arbitrary()
    }
}

impl TryFrom<FallbackRuleConfiguration> for TransactionRule {
    type Error = ConfigError;

    /// Loads the fallback rule. This cannot fail.
    fn try_from(config: FallbackRuleConfiguration) -> (result: Result<Self, ConfigError>)
        ensures
            result matches Ok(rule) && rule@ == fallback_rule_of(config),
    {
        let FallbackRuleConfiguration { account1, account2, payee, negate_first_amount } = config;
        let negate_first_amount_bool: bool = negate_first_amount.unwrap_or(false);
        Ok(
            TransactionRule {
                name: String::from_str(FALLBACK_RULE_NAME),
                pattern_string: String::from_str(FALLBACK_PATTERN_STRING),
                account1,
                account2,
                payee,
                pattern: None,
                payee_is_template: false,
                needs_finalized: true,
                negate_first_amount: negate_first_amount_bool,
                is_fallback: true,
            },
        )
    }
}

/// The aliases among the two of `rule` that are not among `accounts`.
pub open spec fn rule_missing(accounts: Set<Seq<char>>, rule: TransactionRuleView) -> Seq<
    MissingAliasView,
> {
    let first = if accounts.contains(rule.account1) {
        Seq::empty()
    } else {
        seq![MissingAliasView { alias: rule.account1, rule: rule.name }]
    };
    let second = if accounts.contains(rule.account2) {
        Seq::empty()
    } else {
        seq![MissingAliasView { alias: rule.account2, rule: rule.name }]
    };
    first + second
}

/// The missing aliases of each rule of a list, rule after rule.
pub open spec fn rules_missing(accounts: Set<Seq<char>>, rules: Seq<TransactionRuleView>) -> Seq<
    MissingAliasView,
>
    decreases rules.len(),
{
    if rules.len() == 0 {
        Seq::empty()
    } else {
        rules_missing(accounts, rules.drop_last()) + rule_missing(accounts, rules.last())
    }
}

/// The mathematical content of a [`TransactionMatcher`].
pub struct TransactionMatcherView {
    pub rules: Seq<TransactionRuleView>,
    pub fallback: TransactionRuleView,
}

/// The missing aliases of a rule set: those of its rules in order, then
/// those of its fallback rule.
pub open spec fn matcher_missing(accounts: Set<Seq<char>>, matcher: TransactionMatcherView)
    -> Seq<MissingAliasView> {
    rules_missing(accounts, matcher.rules) + rule_missing(accounts, matcher.fallback)
}

/// Whether `accounts` holds both aliases of every rule of the set, the
/// fallback rule included.
pub open spec fn aliases_resolve(accounts: Set<Seq<char>>, matcher: TransactionMatcherView)
    -> bool {
    &&& forall|i: int|
        0 <= i < matcher.rules.len() ==> accounts.contains((#[trigger] matcher.rules[i]).account1)
            && accounts.contains(matcher.rules[i].account2)
    &&& accounts.contains(matcher.fallback.account1)
    &&& accounts.contains(matcher.fallback.account2)
}

/// A list of rules misses no alias exactly if each alias of each rule is known.
pub proof fn lemma_rules_missing_none(accounts: Set<Seq<char>>, rules: Seq<TransactionRuleView>)
    ensures
        rules_missing(accounts, rules).len() == 0 <==> forall|i: int|
            0 <= i < rules.len() ==> accounts.contains((#[trigger] rules[i]).account1)
                && accounts.contains(rules[i].account2),
    decreases rules.len(),
{
    if rules.len() > 0 {
        lemma_rules_missing_none(accounts, rules.drop_last());
        if rules_missing(accounts, rules).len() == 0 {
            assert forall|i: int| 0 <= i < rules.len() implies accounts.contains(
                (#[trigger] rules[i]).account1,
            ) && accounts.contains(rules[i].account2) by {
                if i < rules.len() - 1 {
                    assert(rules.drop_last()[i] == rules[i]);
                }
            }
        } else {
            if rules_missing(accounts, rules.drop_last()).len() != 0 {
                let i = choose|i: int|
                    0 <= i < rules.drop_last().len() && !(accounts.contains(
                        (#[trigger] rules.drop_last()[i]).account1,
                    ) && accounts.contains(rules.drop_last()[i].account2));
                assert(rules[i] == rules.drop_last()[i]);
            } else {
                assert(rule_missing(accounts, rules.last()).len() != 0);
                assert(rules[rules.len() - 1] == rules.last());
            }
        }
    }
}

/// A rule set misses no alias exactly if all its aliases resolve.
pub proof fn lemma_matcher_missing_none(accounts: Set<Seq<char>>, matcher: TransactionMatcherView)
    ensures
        matcher_missing(accounts, matcher).len() == 0 <==> aliases_resolve(accounts, matcher),
{
    lemma_rules_missing_none(accounts, matcher.rules);
}

/// A rule set as the configuration states it: the rules are loaded
/// already, the fallback rule is not.
pub struct TransactionMatcherConfiguration {
    pub fallback_rule: FallbackRuleConfiguration,
    pub transaction_rules: Vec<TransactionRule>,
}

/// The rule set that a configuration stands for.
pub open spec fn matcher_of(config: TransactionMatcherConfiguration) -> TransactionMatcherView {
    TransactionMatcherView {
        rules: rules_view(config.transaction_rules@),
        fallback: fallback_rule_of(config.fallback_rule),
    }
}

/// An ordered rule set with its fallback rule and the one matcher that
/// was compiled from the patterns of all its rules.
#[derive(Debug)]
pub struct TransactionMatcher {
    transaction_rules: Vec<TransactionRule>,
    fallback_rule: TransactionRule,
    rule_patterns: RegexSet,
}

impl View for TransactionMatcher {
    type V = TransactionMatcherView;

    closed spec fn view(&self) -> TransactionMatcherView {
        TransactionMatcherView {
            rules: rules_view(self.transaction_rules@),
            fallback: self.fallback_rule@,
        }
    }
}

/// Appends what a check of one alias found missing, if anything.
fn note_missing(found: &mut Vec<MissingAlias>, result: Result<(), MissingAlias>)
    ensures
        missing_view(final(found)@) == missing_view(old(found)@) + match result {
            Ok(()) => Seq::empty(),
            Err(missing) => seq![missing@],
        },
{
    match result {
        Ok(()) => {
            assert(missing_view(found@) =~= missing_view(old(found)@) + Seq::empty());
        },
        Err(missing) => {
            found.push(missing);
            assert(missing_view(found@) =~= missing_view(old(found)@) + seq![missing@]);
        },
    }
}

impl TransactionMatcher {
    #[verifier::type_invariant]
    spec fn well_formed(self) -> bool {
        &&& set_patterns(&self.rule_patterns) == rule_patterns(rules_view(self.transaction_rules@))
        &&& self.fallback_rule@.is_fallback
    }

    /// The rules in the order of the configuration.
    pub fn transaction_rules(&self) -> (rules: &Vec<TransactionRule>)
        ensures
            rules_view(rules@) == self@.rules,
    {
        &self.transaction_rules
    }

    /// The rule for records that no other rule matches.
    pub fn fallback_rule(&self) -> (rule: &TransactionRule)
        ensures
            rule@ == self@.fallback,
            rule@.is_fallback,
    {
        proof {
            use_type_invariant(self);
        }
        &self.fallback_rule
    }

    /// The matcher compiled from the patterns of the rules, in their order.
    pub fn rule_patterns(&self) -> (set: &RegexSet)
        ensures
            set_patterns(set) == rule_patterns(self@.rules),
    {
        proof {
            use_type_invariant(self);
        }
        &self.rule_patterns
    }

    /// Lists every alias of this rule set that the registry does not
    /// know: rule after rule, the first account before the second, the
    /// fallback rule last.
    pub fn validate_rule_account_aliases(&self, accounts: &AccountMap) -> (missing: Vec<
        MissingAlias,
    >)
        ensures
            missing_view(missing@) == matcher_missing(accounts@.dom(), self@),
    {
        let mut found: Vec<MissingAlias> = Vec::new();
        let mut i: usize = 0;
        assert(rules_view(self.transaction_rules@).take(0) =~= Seq::empty());
        assert(missing_view(found@) =~= Seq::empty());
        while i < self.transaction_rules.len()
            invariant
                i <= self.transaction_rules.len(),
                missing_view(found@) == rules_missing(
                    accounts@.dom(),
                    rules_view(self.transaction_rules@).take(i as int),
                ),
            decreases self.transaction_rules.len() - i,
        {
            let validations = self.transaction_rules[i].validate_account_aliases(accounts);
            proof {
                let all = rules_view(self.transaction_rules@);
                assert(all.take(i + 1).drop_last() =~= all.take(i as int));
                assert(all.take(i + 1).last() == self.transaction_rules@[i as int]@);
            }
            note_missing(&mut found, validations.0);
            note_missing(&mut found, validations.1);
            i = i + 1;
        }
        assert(rules_view(self.transaction_rules@).take(i as int) =~= rules_view(
            self.transaction_rules@,
        ));
        let validations = self.fallback_rule.validate_account_aliases(accounts);
        note_missing(&mut found, validations.0);
        note_missing(&mut found, validations.1);
        found
    }
}

impl TryFromSpecImpl<TransactionMatcherConfiguration> for TransactionMatcher {
    /// The conversion is stated by the contract of `try_from`: its result
    /// holds a compiled matcher, of which no spec function can speak.
    open spec fn obeys_try_from_spec() -> bool {
        false
    }

    open spec fn try_from_spec(config: TransactionMatcherConfiguration) -> Result<
        Self,
        ConfigError,
    > {
        arbitrary()
    }
}

impl TryFrom<TransactionMatcherConfiguration> for TransactionMatcher {
    type Error = ConfigError;

    /// Loads a rule set: compiles the patterns of all its rules into one
    /// matcher, in their order, and loads the fallback rule. Fails with
    /// `InvalidPatternSet` exactly if the engine refuses the set.
    fn try_from(config: TransactionMatcherConfiguration) -> (result: Result<Self, ConfigError>)
        ensures
            match result {
                Ok(matcher) => pattern_set_compiles(
                    rule_patterns(rules_view(config.transaction_rules@)),
                ) && matcher@ == matcher_of(config),
                Err(ConfigError::InvalidPatternSet { message }) => !pattern_set_compiles(
                    rule_patterns(rules_view(config.transaction_rules@)),
                ),
                Err(_) => false,
            },
    {
        let TransactionMatcherConfiguration { fallback_rule, transaction_rules } = config;
        let ghost all = rule_patterns(rules_view(transaction_rules@));
        let mut patterns: Vec<String> = Vec::new();
        let mut i: usize = 0;
        while i < transaction_rules.len()
            invariant
                i <= transaction_rules.len(),
                all == rule_patterns(rules_view(transaction_rules@)),
                strings_view(patterns@) == all.take(i as int),
            decreases transaction_rules.len() - i,
        {
            let pattern = transaction_rules[i].pattern_string.clone();
            proof {
                assert(all[i as int] == transaction_rules@[i as int]@.pattern);
                assert(strings_view(patterns@.push(pattern)) =~= strings_view(patterns@).push(
                    pattern@,
                ));
                assert(all.take(i + 1) =~= all.take(i as int).push(all[i as int]));
            }
            patterns.push(pattern);
            i = i + 1;
        }
        assert(all.take(i as int) =~= all);
        match compile_set(&patterns) {
            Err(error) => Err(ConfigError::InvalidPatternSet { message: error_message(&error) }),
            Ok(rule_patterns) => {
                match TransactionRule::try_from(fallback_rule) {
                    Err(e) => Err(e),
                    Ok(fallback_rule) => Ok(
                        TransactionMatcher { transaction_rules, fallback_rule, rule_patterns },
                    ),
                }
            },
        }
    }
}

/// An importer as the configuration states it: the account registry and
/// the loaded rule set of every input format.
pub struct FinancialImporterConfiguration {
    pub accounts: AccountMap,
    pub import_file_definitions: ImportFileDefinitionMap,
}

/// The missing aliases of the rule sets of the formats `names`, format
/// after format.
pub open spec fn formats_missing(
    accounts: Set<Seq<char>>,
    formats: Map<Seq<char>, TransactionMatcher>,
    names: Seq<Seq<char>>,
) -> Seq<MissingAliasView>
    decreases names.len(),
{
    if names.len() == 0 {
        Seq::empty()
    } else {
        formats_missing(accounts, formats, names.drop_last()) + matcher_missing(
            accounts,
            formats[names.last()]@,
        )
    }
}

/// Formats miss no alias exactly if the aliases of each of them resolve.
pub proof fn lemma_formats_missing_none(
    accounts: Set<Seq<char>>,
    formats: Map<Seq<char>, TransactionMatcher>,
    names: Seq<Seq<char>>,
)
    ensures
        formats_missing(accounts, formats, names).len() == 0 <==> forall|i: int|
            0 <= i < names.len() ==> aliases_resolve(accounts, formats[#[trigger] names[i]]@),
    decreases names.len(),
{
    if names.len() > 0 {
        lemma_formats_missing_none(accounts, formats, names.drop_last());
        lemma_matcher_missing_none(accounts, formats[names.last()]@);
        if formats_missing(accounts, formats, names).len() == 0 {
            assert forall|i: int| 0 <= i < names.len() implies aliases_resolve(
                accounts,
                formats[#[trigger] names[i]]@,
            ) by {
                if i < names.len() - 1 {
                    assert(names.drop_last()[i] == names[i]);
                }
            }
        } else {
            if formats_missing(accounts, formats, names.drop_last()).len() != 0 {
                let i = choose|i: int|
                    0 <= i < names.drop_last().len() && !aliases_resolve(
                        accounts,
                        formats[#[trigger] names.drop_last()[i]]@,
                    );
                assert(names[i] == names.drop_last()[i]);
            } else {
                assert(names[names.len() - 1] == names.last());
            }
        }
    }
}

/// The mathematical content of a [`FinancialImporter`].
pub struct FinancialImporterView {
    pub accounts: Map<Seq<char>, String>,
    pub formats: Map<Seq<char>, TransactionMatcher>,
}

/// Whether every alias of every rule of every format is in the registry.
pub open spec fn is_loaded_importer(importer: FinancialImporterView) -> bool {
    forall|name: Seq<char>| #[trigger]
        importer.formats.dom().contains(name) ==> aliases_resolve(
            importer.accounts.dom(),
            importer.formats[name]@,
        )
}

/// The account registry and the rule sets of all input formats, loaded
/// and checked against each other.
#[derive(Debug)]
pub struct FinancialImporter {
    accounts: AccountMap,
    import_file_definitions: ImportFileDefinitionMap,
}

impl View for FinancialImporter {
    type V = FinancialImporterView;

    closed spec fn view(&self) -> FinancialImporterView {
        FinancialImporterView {
            accounts: self.accounts@,
            formats: self.import_file_definitions@,
        }
    }
}

impl FinancialImporter {
    #[verifier::type_invariant]
    spec fn well_formed(self) -> bool {
        is_loaded_importer(self@)
    }

    /// The account registry. It knows every alias that a rule uses.
    pub fn accounts(&self) -> (accounts: &AccountMap)
        ensures
            accounts@ == self@.accounts,
            is_loaded_importer(self@),
    {
        proof {
            use_type_invariant(self);
        }
        &self.accounts
    }

    /// The rule set of every input format, by the format's name.
    pub fn import_file_definitions(&self) -> (formats: &ImportFileDefinitionMap)
        ensures
            formats@ == self@.formats,
    {
        &self.import_file_definitions
    }
}

impl TryFromSpecImpl<FinancialImporterConfiguration> for FinancialImporter {
    /// The conversion is stated by the contract of `try_from`.
    open spec fn obeys_try_from_spec() -> bool {
        false
    }

    open spec fn try_from_spec(config: FinancialImporterConfiguration) -> Result<
        Self,
        ConfigError,
    > {
        arbitrary()
    }
}

impl TryFrom<FinancialImporterConfiguration> for FinancialImporter {
    type Error = ConfigError;

    /// Checks the rule sets against the registry. Every alias that a rule
    /// uses and the registry does not know is gathered, over all formats
    /// and all their rules, before anything is reported: the result is
    /// `UnresolvedAlias` with the complete list, or the importer if the
    /// list is empty.
    fn try_from(config: FinancialImporterConfiguration) -> (result: Result<Self, ConfigError>)
        ensures
            match result {
                Ok(importer) => importer@.accounts == config.accounts@ && importer@.formats
                    == config.import_file_definitions@ && formats_missing(
                    config.accounts@.dom(),
                    config.import_file_definitions@,
                    config.import_file_definitions.keys(),
                ).len() == 0,
                Err(ConfigError::UnresolvedAlias { missing }) => missing@.len() > 0
                    && missing_view(missing@) == formats_missing(
                    config.accounts@.dom(),
                    config.import_file_definitions@,
                    config.import_file_definitions.keys(),
                ),
                Err(_) => false,
            },
    {
        let FinancialImporterConfiguration { accounts, import_file_definitions } = config;
        let ghost names = import_file_definitions.keys();
        let mut validation_errors: Vec<MissingAlias> = Vec::new();
        let mut i: usize = 0;
        assert(missing_view(validation_errors@) =~= Seq::empty());
        assert(names.take(0) =~= Seq::empty());
        while i < import_file_definitions.len()
            invariant
                i <= names.len(),
                names == import_file_definitions.keys(),
                missing_view(validation_errors@) == formats_missing(
                    accounts@.dom(),
                    import_file_definitions@,
                    names.take(i as int),
                ),
            decreases names.len() - i,
        {
            let (_, matcher) = import_file_definitions.entry(i);
            let mut found = matcher.validate_rule_account_aliases(&accounts);
            proof {
                assert(names.take(i + 1).drop_last() =~= names.take(i as int));
                assert(names.take(i + 1).last() == names[i as int]);
                assert(missing_view(validation_errors@ + found@) =~= missing_view(
                    validation_errors@,
                ) + missing_view(found@));
            }
            validation_errors.append(&mut found);
            i = i + 1;
        }
        assert(names.take(i as int) =~= names);
        if validation_errors.len() == 0 {
            proof {
                lemma_formats_missing_none(accounts@.dom(), import_file_definitions@, names);
                import_file_definitions.lemma_keys_are_domain();
                assert forall|name: Seq<char>| #[trigger]
                    import_file_definitions@.dom().contains(name) implies aliases_resolve(
                    accounts@.dom(),
                    import_file_definitions@[name]@,
                ) by {
                    assert(names.contains(name));
                    let i = choose|i: int| 0 <= i < names.len() && names[i] == name;
                    assert(aliases_resolve(accounts@.dom(), import_file_definitions@[names[i]]@));
                }
            }
            Ok(FinancialImporter { accounts, import_file_definitions })
        } else {
            Err(ConfigError::UnresolvedAlias { missing: validation_errors })
        }
    }
}

/// An alias that a rule of a list uses and the registry does not know is
/// among the missing aliases of the list, under the name of that rule.
pub proof fn lemma_rules_missing_lists_all(
    accounts: Set<Seq<char>>,
    rules: Seq<TransactionRuleView>,
    at: int,
)
    requires
        0 <= at < rules.len(),
    ensures
        !accounts.contains(rules[at].account1) ==> rules_missing(accounts, rules).contains(
            MissingAliasView { alias: rules[at].account1, rule: rules[at].name },
        ),
        !accounts.contains(rules[at].account2) ==> rules_missing(accounts, rules).contains(
            MissingAliasView { alias: rules[at].account2, rule: rules[at].name },
        ),
    decreases rules.len(),
{
    let before = rules_missing(accounts, rules.drop_last());
    let last = rule_missing(accounts, rules.last());
    let all = rules_missing(accounts, rules);
    if at < rules.len() - 1 {
        lemma_rules_missing_lists_all(accounts, rules.drop_last(), at);
        assert(rules.drop_last()[at] == rules[at]);
        assert forall|m: MissingAliasView| before.contains(m) implies all.contains(m) by {
            let k = choose|k: int| 0 <= k < before.len() && before[k] == m;
            assert(all[k] == m);
        }
    } else {
        let first = MissingAliasView { alias: rules[at].account1, rule: rules[at].name };
        let second = MissingAliasView { alias: rules[at].account2, rule: rules[at].name };
        if !accounts.contains(rules[at].account1) {
            assert(last[0] == first);
            assert(all[before.len() as int] == first);
        }
        if !accounts.contains(rules[at].account2) {
            assert(last[last.len() - 1] == second);
            assert(all[all.len() - 1] == second);
        }
    }
}

/// Loading reports every unknown alias, not the first alone: an alias
/// that any rule of any format uses and the registry does not know is
/// among the missing aliases of the formats, under the name of its rule.
pub proof fn lemma_formats_missing_lists_all(
    accounts: Set<Seq<char>>,
    formats: Map<Seq<char>, TransactionMatcher>,
    names: Seq<Seq<char>>,
    format: int,
    rule: int,
)
    requires
        0 <= format < names.len(),
        0 <= rule < formats[names[format]]@.rules.len(),
    ensures
        !accounts.contains(formats[names[format]]@.rules[rule].account1) ==> formats_missing(
            accounts,
            formats,
            names,
        ).contains(
            MissingAliasView {
                alias: formats[names[format]]@.rules[rule].account1,
                rule: formats[names[format]]@.rules[rule].name,
            },
        ),
        !accounts.contains(formats[names[format]]@.rules[rule].account2) ==> formats_missing(
            accounts,
            formats,
            names,
        ).contains(
            MissingAliasView {
                alias: formats[names[format]]@.rules[rule].account2,
                rule: formats[names[format]]@.rules[rule].name,
            },
        ),
    decreases names.len(),
{
    let before = formats_missing(accounts, formats, names.drop_last());
    let last = matcher_missing(accounts, formats[names.last()]@);
    let all = formats_missing(accounts, formats, names);
    if format < names.len() - 1 {
        lemma_formats_missing_lists_all(accounts, formats, names.drop_last(), format, rule);
        assert(names.drop_last()[format] == names[format]);
        assert forall|m: MissingAliasView| before.contains(m) implies all.contains(m) by {
            let k = choose|k: int| 0 <= k < before.len() && before[k] == m;
            assert(all[k] == m);
        }
    } else {
        let matcher = formats[names[format]]@;
        let of_rules = rules_missing(accounts, matcher.rules);
        lemma_rules_missing_lists_all(accounts, matcher.rules, rule);
        assert forall|m: MissingAliasView| of_rules.contains(m) implies all.contains(m) by {
            let k = choose|k: int| 0 <= k < of_rules.len() && of_rules[k] == m;
            assert(last[k] == m);
            assert(all[before.len() + k] == m);
        }
    }
}

/// The account registry and the rules of one input format, gathered
/// piece by piece.
pub struct ImporterConfiguration {
    pub accounts: AccountMap,
    pub transaction_rules: Vec<TransactionRule>,
}

impl ImporterConfiguration {
    /// A configuration without accounts and rules.
    pub fn new() -> (config: Self)
        ensures
            config.accounts@ == Map::<Seq<char>, String>::empty(),
            config.transaction_rules@ == Seq::<TransactionRule>::empty(),
    {
        let accounts: AccountMap = StringMap::new();
        let transaction_rules: Vec<TransactionRule> = Vec::new();
        Self { accounts, transaction_rules }
    }

    /// Binds an alias to a full account name, in place of the name that
    /// it was bound to before.
    pub fn add_account_alias(&mut self, alias: String, full_name: String)
        ensures
            final(self).accounts@ == old(self).accounts@.insert(alias@, full_name),
            final(self).transaction_rules == old(self).transaction_rules,
    {
        self.accounts.insert(alias, full_name);
    }

    /// Appends a rule, which comes after all rules added before.
    pub fn add_transaction_rule(&mut self, transaction_rule: TransactionRule)
        ensures
            final(self).transaction_rules@ == old(self).transaction_rules@.push(transaction_rule),
            final(self).accounts == old(self).accounts,
    {
        self.transaction_rules.push(transaction_rule);
    }

    /// Loads an importer for the one format `format_name` from the
    /// accounts and rules gathered and the fallback rule given: compiles
    /// the patterns of the rules into one matcher, then checks the
    /// aliases of all rules, the fallback rule included, against the
    /// registry. Fails with `InvalidPatternSet` if the engine refuses the
    /// patterns, else with `UnresolvedAlias` and all aliases that the
    /// registry does not know, if there are any.
    pub fn load(self, format_name: String, fallback_rule: FallbackRuleConfiguration) -> (result:
        Result<FinancialImporter, ConfigError>)
        ensures
            match result {
                Ok(importer) => {
                    &&& pattern_set_compiles(rule_patterns(rules_view(self.transaction_rules@)))
                    &&& importer@.accounts == self.accounts@
                    &&& importer@.formats.dom() == set![format_name@]
                    &&& importer@.formats[format_name@]@ == loaded_matcher(self, fallback_rule)
                    &&& aliases_resolve(self.accounts@.dom(), loaded_matcher(self, fallback_rule))
                },
                Err(ConfigError::InvalidPatternSet { message }) => !pattern_set_compiles(
                    rule_patterns(rules_view(self.transaction_rules@)),
                ),
                Err(ConfigError::UnresolvedAlias { missing }) => {
                    &&& pattern_set_compiles(rule_patterns(rules_view(self.transaction_rules@)))
                    &&& missing@.len() > 0
                    &&& missing_view(missing@) == matcher_missing(
                        self.accounts@.dom(),
                        loaded_matcher(self, fallback_rule),
                    )
                },
                Err(_) => false,
            },
    {
        let ImporterConfiguration { accounts, transaction_rules } = self;
        let matcher = match TransactionMatcher::try_from(
            TransactionMatcherConfiguration { fallback_rule, transaction_rules },
        ) {
            Ok(matcher) => matcher,
            Err(e) => {
                return Err(e);
            },
        };
        let ghost loaded = matcher@;
        let mut import_file_definitions: ImportFileDefinitionMap = StringMap::new();
        import_file_definitions.insert(format_name, matcher);
        let ghost names = import_file_definitions.keys();
        let ghost formats = import_file_definitions@;
        proof {
            assert(names =~= seq![format_name@]);
            assert(names.drop_last() =~= Seq::<Seq<char>>::empty());
            assert(names.last() == format_name@);
            assert(formats[format_name@]@ == loaded);
            assert(formats_missing(accounts@.dom(), formats, names.drop_last()).len() == 0);
            assert(formats_missing(accounts@.dom(), formats, names) =~= matcher_missing(
                accounts@.dom(),
                loaded,
            ));
            lemma_matcher_missing_none(accounts@.dom(), loaded);
            assert(formats.dom() =~= set![format_name@]);
        }
        FinancialImporter::try_from(
            FinancialImporterConfiguration { accounts, import_file_definitions },
        )
    }
}

/// The rule set that loading makes of the rules of a configuration and a
/// fallback rule.
pub open spec fn loaded_matcher(
    config: ImporterConfiguration,
    fallback_rule: FallbackRuleConfiguration,
) -> TransactionMatcherView {
    TransactionMatcherView {
        rules: rules_view(config.transaction_rules@),
        fallback: fallback_rule_of(fallback_rule),
    }
}

} // verus!
