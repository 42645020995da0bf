use financial_importer::date::Date;
use financial_importer::ledger_entry::{EntryLine, ValidationError};
use financial_importer::source_record::SourceRecord;
use financial_importer::string_map::StringMap;
use financial_importer::transaction_matcher::definitions::{
    AccountMap, ConfigError, FallbackRuleConfiguration, FinancialImporter,
    FinancialImporterConfiguration, ImportFileDefinitionMap, TransactionMatcher,
    TransactionMatcherConfiguration, TransactionRule, TransactionRuleConfiguration,
};
use financial_importer::transaction_matcher::matcher::{select_rule, EntryError};
use financial_importer::transaction_matcher::GeneratedLedgerEntry;

fn day(year: u16, month: u8, day: u8) -> Date {
    Date::new(year, month, day).expect("a day of the calendar")
}

fn record(description: &str, amount: i64) -> SourceRecord {
    SourceRecord { date: day(2024, 1, 5), description: description.to_string(), amount }
}

fn accounts() -> AccountMap {
    let mut accounts: AccountMap = StringMap::new();
    accounts.insert("checking".to_string(), "Assets:Checking".to_string());
    accounts.insert("visa".to_string(), "Liabilities:Visa".to_string());
    accounts.insert("rides".to_string(), "Expenses:Transportation:Ride Share".to_string());
    accounts.insert("unknown".to_string(), "Expenses:Unknown".to_string());
    accounts
}

fn rule_config(
    name: Option<&str>,
    pattern: &str,
    account1: &str,
    account2: &str,
    payee: &str,
) -> TransactionRuleConfiguration {
    TransactionRuleConfiguration::new(
        name.map(|n| n.to_string()),
        pattern.to_string(),
        account1.to_string(),
        account2.to_string(),
        payee.to_string(),
        None,
    )
}

fn rule(
    name: Option<&str>,
    pattern: &str,
    account1: &str,
    account2: &str,
    payee: &str,
) -> TransactionRule {
    TransactionRule::try_from(rule_config(name, pattern, account1, account2, payee))
        .expect("a pattern that compiles")
}

fn fallback() -> FallbackRuleConfiguration {
    FallbackRuleConfiguration {
        account1: "unknown".to_string(),
        account2: "checking".to_string(),
        payee: "Unknown Payee".to_string(),
        negate_first_amount: None,
    }
}

fn matcher(rules: Vec<TransactionRule>) -> TransactionMatcher {
    TransactionMatcher::try_from(TransactionMatcherConfiguration {
        fallback_rule: fallback(),
        transaction_rules: rules,
    })
    .expect("patterns that compile as a set")
}

fn lines_of(generated: GeneratedLedgerEntry<'_>) -> Vec<String> {
    generated.unwrap_entry().lines().iter().map(|line| line.to_string()).collect()
}

fn postings_of(lines: &[EntryLine]) -> Vec<(String, i64)> {
    let mut postings = Vec::new();
    for line in lines {
        if let EntryLine::Posting { account, amount } = line {
            postings.push((account.clone(), *amount));
        }
    }
    postings
}

fn comments_of(lines: &[EntryLine]) -> Vec<String> {
    let mut comments = Vec::new();
    for line in lines {
        if let EntryLine::Comment { comment } = line {
            comments.push(comment.clone());
        }
    }
    comments
}

#[test]
fn card_payment_end_to_end() {
    let mut registry: AccountMap = StringMap::new();
    registry.insert("checking".to_string(), "Assets:Checking".to_string());
    registry.insert("visa".to_string(), "Liabilities:Visa".to_string());
    let rules = vec![rule(None, ".*PAYMENT.*", "visa", "checking", "Card Payment")];
    let set = TransactionMatcher::try_from(TransactionMatcherConfiguration {
        fallback_rule: FallbackRuleConfiguration {
            account1: "checking".to_string(),
            account2: "visa".to_string(),
            payee: "Unknown".to_string(),
            negate_first_amount: None,
        },
        transaction_rules: rules,
    })
    .unwrap();
    let mut formats: ImportFileDefinitionMap = StringMap::new();
    formats.insert("bank".to_string(), set);
    let importer = FinancialImporter::try_from(FinancialImporterConfiguration {
        accounts: registry,
        import_file_definitions: formats,
    })
    .unwrap();
    let source = record("AMEX PAYMENT RECEIVED", -20000);
    let generated = importer.ledger_entry_for_source_record("bank", &source).unwrap();
    assert!(generated.is_from_matched_rule());
    let entry = generated.unwrap_entry();
    assert_eq!(entry.date().formatted(), "2024/01/05");
    assert_eq!(entry.payee(), "Card Payment");
    assert_eq!(
        postings_of(entry.lines()),
        vec![("Liabilities:Visa".to_string(), -20000), ("Assets:Checking".to_string(), 20000)]
    );
    let text = entry.to_string();
    let rows: Vec<&str> = text.lines().collect();
    assert_eq!(rows[0], "2024/01/05 Card Payment");
    assert_eq!(rows[1], "   ; SOURCE: AMEX PAYMENT RECEIVED");
    assert_eq!(rows[2], "   ; MATCHING RULE: Payee: 'Card Payment' with pattern '.*PAYMENT.*'.");
    assert!(rows[3].starts_with("   Liabilities:Visa "));
    assert!(rows[3].ends_with(" $-200.00"));
    assert!(rows[4].starts_with("   Assets:Checking "));
    assert!(rows[4].ends_with(" $200.00"));
    assert_eq!(rows.len(), 5);
}

#[test]
fn template_payee_is_expanded_and_title_cased() {
    let uber = rule(Some("uber"), "(?P<vendor>UBER.*)", "rides", "checking", "{vendor}");
    assert!(uber.payee_is_template());
    assert_eq!(uber.resolve_payee("UBER TRIP 123").unwrap(), "Uber Trip 123");
    let entry = uber
        .ledger_entry_for_source_record(&accounts(), &record("UBER TRIP 123", -1550))
        .unwrap();
    assert_eq!(entry.payee(), "Uber Trip 123");
}

#[test]
fn numbered_references_name_groups_by_position() {
    let shop = rule(None, r"^POS (\w+) (\w+)", "rides", "checking", "{2} at {1} ({0})");
    assert_eq!(shop.resolve_payee("POS berlin cafe 99").unwrap(), "Cafe At Berlin Pos Berlin Cafe");
}

#[test]
fn dangling_reference_is_an_error() {
    let broken = rule(None, "(?P<vendor>UBER.*)", "rides", "checking", "{vendor} {city}");
    match broken.resolve_payee("UBER TRIP 123") {
        Err(EntryError::TemplateExpansionError { reference }) => assert_eq!(reference, "city"),
        other => panic!("expected a dangling reference, got {:?}", other),
    }
    let numbered = rule(None, "(UBER)", "rides", "checking", "{2}");
    match numbered.resolve_payee("UBER") {
        Err(EntryError::TemplateExpansionError { reference }) => assert_eq!(reference, "2"),
        other => panic!("expected a dangling reference, got {:?}", other),
    }
    let huge = rule(None, "(UBER)", "rides", "checking", "{99999999999999999999999999}");
    assert!(matches!(
        huge.resolve_payee("UBER"),
        Err(EntryError::TemplateExpansionError { .. })
    ));
}

#[test]
fn template_rule_needs_its_pattern_to_match() {
    let uber = rule(None, "(?P<vendor>UBER.*)", "rides", "checking", "{vendor}");
    assert!(matches!(uber.resolve_payee("LYFT RIDE"), Err(EntryError::TemplateNoMatch)));
}

#[test]
fn group_without_a_part_in_the_match_expands_to_nothing() {
    let either = rule(None, r"(?:(?P<a>CASH)|(?P<b>CARD)) (?P<shop>\w+)", "rides", "checking", "{a}{b} {shop}");
    assert_eq!(either.resolve_payee("CARD bakery").unwrap(), "Card Bakery");
}

#[test]
fn expansion_that_leaves_no_word_is_an_empty_payee() {
    let dashes = rule(None, r"(?P<x>-+)", "rides", "checking", "{x}");
    let result =
        dashes.ledger_entry_for_source_record(&accounts(), &record("---", 100)).unwrap_err();
    assert!(matches!(result, EntryError::Validation(ValidationError::EmptyPayee)));
}

#[test]
fn braces_that_open_no_placeholder_stand_for_themselves() {
    let literal = rule(None, "SHOP", "rides", "checking", "Shop {} {");
    assert!(!literal.payee_is_template());
    assert_eq!(literal.resolve_payee("SHOP").unwrap(), "Shop {} {");
}

#[test]
fn sign_follows_the_negate_flag() {
    let mut config = rule_config(None, "PAY", "visa", "checking", "Pay");
    let plain = TransactionRule::try_from(config).unwrap();
    let entry = plain.ledger_entry_for_source_record(&accounts(), &record("PAY", 1234)).unwrap();
    assert_eq!(
        postings_of(entry.lines()),
        vec![("Liabilities:Visa".to_string(), 1234), ("Assets:Checking".to_string(), -1234)]
    );
    config = rule_config(None, "PAY", "visa", "checking", "Pay");
    config.negate_first_amount = Some(true);
    let negated = TransactionRule::try_from(config).unwrap();
    let entry = negated.ledger_entry_for_source_record(&accounts(), &record("PAY", 1234)).unwrap();
    assert_eq!(
        postings_of(entry.lines()),
        vec![("Liabilities:Visa".to_string(), -1234), ("Assets:Checking".to_string(), 1234)]
    );
}

#[test]
fn comments_name_source_rule_and_finalization() {
    let mut config = rule_config(Some("pay rule"), "PAY", "visa", "checking", "Pay");
    config.needs_finalized = Some(true);
    let flagged = TransactionRule::try_from(config).unwrap();
    let entry =
        flagged.ledger_entry_for_source_record(&accounts(), &record("PAY 1", 1)).unwrap();
    assert_eq!(
        comments_of(entry.lines()),
        vec!["SOURCE: PAY 1", "MATCHING RULE: pay rule", "NEEDS FINALIZED"]
    );
    let plain = rule(Some("pay rule"), "PAY", "visa", "checking", "Pay");
    let entry = plain.ledger_entry_for_source_record(&accounts(), &record("PAY 1", 1)).unwrap();
    assert_eq!(comments_of(entry.lines()), vec!["SOURCE: PAY 1", "MATCHING RULE: pay rule"]);
}

#[test]
fn no_match_falls_back() {
    let set = matcher(vec![rule(None, "UBER", "rides", "checking", "Uber")]);
    let source = record("GROCERY STORE", -4200);
    let generated = set.ledger_entry_for_source_record(&accounts(), &source).unwrap();
    assert!(!generated.is_from_matched_rule());
    let (entry, origin) = generated.unwrap();
    assert_eq!(origin.description, "GROCERY STORE");
    assert_eq!(entry.payee(), "Unknown Payee");
    assert_eq!(comments_of(entry.lines()), vec!["SOURCE: GROCERY STORE", "NEEDS FINALIZED"]);
    assert_eq!(
        postings_of(entry.lines()),
        vec![("Expenses:Unknown".to_string(), -4200), ("Assets:Checking".to_string(), 4200)]
    );
}

#[test]
fn empty_rule_set_always_falls_back() {
    let set = matcher(Vec::new());
    let source = record("", 1);
    let generated = set.ledger_entry_for_source_record(&accounts(), &source).unwrap();
    assert!(!generated.is_from_matched_rule());
}

#[test]
fn first_rule_wins_among_several_matches() {
    let set = matcher(vec![
        rule(Some("never"), "LYFT", "rides", "checking", "Lyft"),
        rule(Some("first"), "UBER", "rides", "checking", "First"),
        rule(Some("second"), "UBER TRIP", "rides", "checking", "Second"),
        rule(Some("third"), ".*", "rides", "checking", "Third"),
    ]);
    let source = record("UBER TRIP 7", -100);
    for _ in 0..3 {
        let generated = set.ledger_entry_for_source_record(&accounts(), &source).unwrap();
        assert!(generated.is_from_matched_rule());
        assert_eq!(generated.unwrap_entry().payee(), "First");
    }
    let other = record("TAXI", -100);
    let generated = set.ledger_entry_for_source_record(&accounts(), &other).unwrap();
    assert_eq!(generated.unwrap_entry().payee(), "Third");
}

#[test]
fn matching_is_case_sensitive_and_unanchored() {
    let set = matcher(vec![
        rule(Some("mid"), "TRIP", "rides", "checking", "Mid"),
        rule(Some("anchored"), "^TAXI$", "rides", "checking", "Anchored"),
    ]);
    let inside = record("UBER TRIP 7", -100);
    assert!(set.ledger_entry_for_source_record(&accounts(), &inside).unwrap().is_from_matched_rule());
    let lower = record("uber trip 7", -100);
    assert!(!set.ledger_entry_for_source_record(&accounts(), &lower).unwrap().is_from_matched_rule());
    let partial = record("TAXI 5", -100);
    assert!(!set.ledger_entry_for_source_record(&accounts(), &partial).unwrap().is_from_matched_rule());
    let whole = record("TAXI", -100);
    assert!(set.ledger_entry_for_source_record(&accounts(), &whole).unwrap().is_from_matched_rule());
}

#[test]
fn selection_takes_the_first_hit() {
    assert_eq!(select_rule(&vec![]), None);
    assert_eq!(select_rule(&vec![4]), Some(4));
    assert_eq!(select_rule(&vec![2, 5, 9]), Some(2));
}

#[test]
fn invalid_pattern_stops_loading_and_names_the_rule() {
    match TransactionRule::try_from(rule_config(Some("broken"), "foo(bar", "a", "b", "P")) {
        Err(ConfigError::InvalidPattern { rule, message }) => {
            assert_eq!(rule, "broken");
            assert!(!message.is_empty());
        }
        other => panic!("expected an invalid pattern, got {:?}", other),
    }
    match TransactionRule::try_from(rule_config(None, "foo(bar", "a", "b", "P")) {
        Err(ConfigError::InvalidPattern { rule, .. }) => {
            assert_eq!(rule, "Payee: 'P' with pattern 'foo(bar'.");
        }
        other => panic!("expected an invalid pattern, got {:?}", other),
    }
}

#[test]
fn rule_defaults() {
    let loaded = rule(None, "UBER", "rides", "checking", "Uber");
    assert_eq!(loaded.name(), "Payee: 'Uber' with pattern 'UBER'.");
    assert_eq!(loaded.pattern_string(), "UBER");
    assert_eq!(loaded.account1(), "rides");
    assert_eq!(loaded.account2(), "checking");
    assert_eq!(loaded.payee(), "Uber");
    assert!(!loaded.needs_finalized());
    assert!(!loaded.negate_first_amount());
    assert!(!loaded.payee_is_template());
    assert!(!loaded.is_fallback());
    assert!(loaded.pattern().is_none());
    let template = rule(None, "(UBER)", "rides", "checking", "{1}");
    assert_eq!(template.pattern().unwrap().as_str(), "(UBER)");
}

#[test]
fn fallback_rule_is_fixed_but_for_accounts_and_payee() {
    let loaded = TransactionRule::try_from(fallback()).unwrap();
    assert_eq!(loaded.name(), "Fallback Transaction Rule");
    assert_eq!(loaded.pattern_string(), ".*");
    assert!(loaded.needs_finalized());
    assert!(!loaded.payee_is_template());
    assert!(loaded.is_fallback());
    let braces = TransactionRule::try_from(FallbackRuleConfiguration {
        account1: "unknown".to_string(),
        account2: "checking".to_string(),
        payee: "{0}".to_string(),
        negate_first_amount: Some(true),
    })
    .unwrap();
    assert!(!braces.payee_is_template());
    assert!(braces.negate_first_amount());
    assert_eq!(braces.resolve_payee("anything").unwrap(), "{0}");
}

#[test]
fn all_unknown_aliases_are_reported_together() {
    let set = matcher(vec![
        rule(Some("one"), "A", "nowhere", "checking", "One"),
        rule(Some("two"), "B", "checking", "elsewhere", "Two"),
        rule(Some("three"), "C", "visa", "checking", "Three"),
    ]);
    let mut formats: ImportFileDefinitionMap = StringMap::new();
    formats.insert("bank".to_string(), set);
    let result = FinancialImporter::try_from(FinancialImporterConfiguration {
        accounts: accounts(),
        import_file_definitions: formats,
    });
    match result {
        Err(ConfigError::UnresolvedAlias { missing }) => {
            let found: Vec<(String, String)> =
                missing.into_iter().map(|m| (m.alias, m.rule)).collect();
            assert_eq!(
                found,
                vec![
                    ("nowhere".to_string(), "one".to_string()),
                    ("elsewhere".to_string(), "two".to_string()),
                ]
            );
        }
        other => panic!("expected unresolved aliases, got {:?}", other),
    }
}

#[test]
fn unknown_aliases_are_gathered_over_all_formats() {
    let first = matcher(vec![rule(Some("one"), "A", "nowhere", "nowhere too", "One")]);
    let second = TransactionMatcher::try_from(TransactionMatcherConfiguration {
        fallback_rule: FallbackRuleConfiguration {
            account1: "lost".to_string(),
            account2: "checking".to_string(),
            payee: "Unknown".to_string(),
            negate_first_amount: None,
        },
        transaction_rules: vec![rule(Some("two"), "B", "checking", "elsewhere", "Two")],
    })
    .unwrap();
    let mut formats: ImportFileDefinitionMap = StringMap::new();
    formats.insert("first".to_string(), first);
    formats.insert("second".to_string(), second);
    let result = FinancialImporter::try_from(FinancialImporterConfiguration {
        accounts: accounts(),
        import_file_definitions: formats,
    });
    match result {
        Err(ConfigError::UnresolvedAlias { missing }) => {
            let found: Vec<(String, String)> =
                missing.into_iter().map(|m| (m.alias, m.rule)).collect();
            assert_eq!(
                found,
                vec![
                    ("nowhere".to_string(), "one".to_string()),
                    ("nowhere too".to_string(), "one".to_string()),
                    ("elsewhere".to_string(), "two".to_string()),
                    ("lost".to_string(), "Fallback Transaction Rule".to_string()),
                ]
            );
        }
        other => panic!("expected unresolved aliases, got {:?}", other),
    }
}

#[test]
fn unknown_format_is_an_error() {
    let mut formats: ImportFileDefinitionMap = StringMap::new();
    formats.insert("bank".to_string(), matcher(Vec::new()));
    let importer = FinancialImporter::try_from(FinancialImporterConfiguration {
        accounts: accounts(),
        import_file_definitions: formats,
    })
    .unwrap();
    let source = record("X", 1);
    match importer.ledger_entry_for_source_record("broker", &source) {
        Err(EntryError::UnknownFormat { name }) => assert_eq!(name, "broker"),
        other => panic!("expected an unknown format, got {:?}", other),
    }
    assert!(importer.ledger_entry_for_source_record("bank", &source).is_ok());
}

#[test]
fn rule_on_its_own_reports_an_unknown_alias() {
    let stray = rule(None, "A", "nowhere", "checking", "Stray");
    match stray.ledger_entry_for_source_record(&accounts(), &record("A", 1)) {
        Err(EntryError::UnknownAlias { alias }) => assert_eq!(alias, "nowhere"),
        other => panic!("expected an unknown alias, got {:?}", other),
    }
    let second = rule(None, "A", "checking", "elsewhere", "Stray");
    match second.ledger_entry_for_source_record(&accounts(), &record("A", 1)) {
        Err(EntryError::UnknownAlias { alias }) => assert_eq!(alias, "elsewhere"),
        other => panic!("expected an unknown alias, got {:?}", other),
    }
}

#[test]
fn amount_without_an_opposite_is_refused() {
    let pay = rule(None, "A", "visa", "checking", "Pay");
    assert!(matches!(
        pay.ledger_entry_for_source_record(&accounts(), &record("A", i64::MIN)),
        Err(EntryError::AmountOutOfRange)
    ));
    assert!(pay.ledger_entry_for_source_record(&accounts(), &record("A", i64::MAX)).is_ok());
    assert!(pay.ledger_entry_for_source_record(&accounts(), &record("A", i64::MIN + 1)).is_ok());
}

#[test]
fn empty_literal_payee_is_refused() {
    let nameless = rule(Some("nameless"), "A", "visa", "checking", "");
    assert!(matches!(
        nameless.ledger_entry_for_source_record(&accounts(), &record("A", 5)),
        Err(EntryError::Validation(ValidationError::EmptyPayee))
    ));
}

#[test]
fn lines_of_a_generated_entry_can_be_rendered() {
    let set = matcher(vec![rule(Some("uber"), "UBER", "rides", "checking", "Uber")]);
    let source = record("UBER", -1550);
    let generated = set.ledger_entry_for_source_record(&accounts(), &source).unwrap();
    let lines = lines_of(generated);
    assert_eq!(lines[0], "   ; SOURCE: UBER");
    assert_eq!(lines[1], "   ; MATCHING RULE: uber");
    assert_eq!(lines[2], format!("   Expenses:Transportation:Ride Share {:>30}", "$-15.50"));
    assert_eq!(lines[3], format!("   Assets:Checking {:>49}", "$15.50"));
}
