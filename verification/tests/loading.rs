use financial_importer::date::Date;
use financial_importer::ledger_entry::EntryLine;
use financial_importer::source_record::SourceRecord;
use financial_importer::transaction_matcher::definitions::{
    ConfigError, FallbackRuleConfiguration, ImporterConfiguration, TransactionMatcher,
    TransactionMatcherConfiguration, TransactionRule, TransactionRuleConfiguration,
};

fn rule(name: &str, pattern: &str, payee: &str, negate: bool) -> TransactionRule {
    let mut config = TransactionRuleConfiguration::new(
        Some(name.to_string()),
        pattern.to_string(),
        "visa".to_string(),
        "checking".to_string(),
        payee.to_string(),
        Some(false),
    );
    config.negate_first_amount = Some(negate);
    TransactionRule::try_from(config).expect("a pattern that compiles")
}

fn fallback() -> FallbackRuleConfiguration {
    FallbackRuleConfiguration {
        account1: "checking".to_string(),
        account2: "visa".to_string(),
        payee: "Unknown".to_string(),
        negate_first_amount: None,
    }
}

#[test]
fn patterns_that_compile_alone_may_be_too_much_together() {
    // Each pattern is within the engine's size limit; enough of them in one
    // set are not.
    let pattern = r"\w{200}";
    assert!(regex::Regex::new(pattern).is_ok());
    let mut count = 1;
    let mut refused = None;
    while count <= 64 && refused.is_none() {
        let rules: Vec<TransactionRule> = (0..count)
            .map(|i| rule(&format!("rule {}", i), pattern, "Payee", false))
            .collect();
        let result = TransactionMatcher::try_from(TransactionMatcherConfiguration {
            fallback_rule: fallback(),
            transaction_rules: rules,
        });
        match result {
            Ok(set) => assert_eq!(set.rule_patterns().len(), count),
            Err(ConfigError::InvalidPatternSet { message }) => refused = Some(message),
            Err(other) => panic!("expected the set to be refused, got {:?}", other),
        }
        count *= 2;
    }
    let message = refused.expect("a set that the engine refuses");
    assert!(!message.is_empty());
}

#[test]
fn every_generated_entry_balances() {
    let mut config = ImporterConfiguration::new();
    config.add_account_alias("checking".to_string(), "Assets:Checking".to_string());
    config.add_account_alias("visa".to_string(), "Liabilities:Visa".to_string());
    config.add_transaction_rule(rule("plain", "PLAIN", "Plain", false));
    config.add_transaction_rule(rule("negated", "NEGATED", "Negated", true));
    config.add_transaction_rule(rule("named", "(?P<who>[A-Z]+) SHOP", "{who}", false));
    let importer = config.load("bank".to_string(), fallback()).unwrap();
    let day = Date::new(2024, 6, 30).unwrap();
    let amounts = [0i64, 1, -1, 99, -20000, 123456789, i64::MAX, i64::MIN + 1];
    let descriptions = ["PLAIN", "NEGATED", "ACME SHOP", "NOTHING KNOWN", ""];
    let mut records = Vec::new();
    for amount in amounts {
        for description in descriptions {
            records.push(SourceRecord { date: day, description: description.to_string(), amount });
        }
    }
    let processed = importer.process_records("bank", &records);
    assert!(processed.errors.is_empty());
    assert_eq!(processed.entries.len(), records.len());
    assert_eq!(processed.matched_count, 3 * amounts.len());
    assert_eq!(processed.unmatched_count, 2 * amounts.len());
    for entry in &processed.entries {
        let mut total: i128 = 0;
        let mut postings = 0;
        for line in entry.lines() {
            if let EntryLine::Posting { amount, .. } = line {
                total += *amount as i128;
                postings += 1;
            }
        }
        assert_eq!(total, 0);
        assert_eq!(postings, 2);
        assert!(!entry.payee().is_empty());
    }
}

#[test]
fn rule_configuration_keeps_what_it_is_given() {
    let config = TransactionRuleConfiguration::new(
        Some("n".to_string()),
        "p".to_string(),
        "a1".to_string(),
        "a2".to_string(),
        "payee".to_string(),
        Some(true),
    );
    assert_eq!(config.name.as_deref(), Some("n"));
    assert_eq!(config.pattern_string, "p");
    assert_eq!(config.account1, "a1");
    assert_eq!(config.account2, "a2");
    assert_eq!(config.payee, "payee");
    assert_eq!(config.needs_finalized, Some(true));
    assert_eq!(config.negate_first_amount, None);
    let loaded = TransactionRule::try_from(config).unwrap();
    assert!(loaded.needs_finalized());
    assert!(!loaded.negate_first_amount());
}

#[test]
fn loading_refuses_a_set_that_does_not_compile() {
    let mut config = ImporterConfiguration::new();
    config.add_account_alias("checking".to_string(), "Assets:Checking".to_string());
    config.add_account_alias("visa".to_string(), "Liabilities:Visa".to_string());
    for i in 0..4 {
        config.add_transaction_rule(rule(&format!("rule {}", i), r"\w{200}", "Payee", false));
    }
    assert!(matches!(
        config.load("bank".to_string(), fallback()),
        Err(ConfigError::InvalidPatternSet { .. })
    ));
}
