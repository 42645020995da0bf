use financial_importer::batch::{gather_results, BatchStatus};
use financial_importer::date::Date;
use financial_importer::ledger_entry::{LedgerEntry, LedgerEntryBuilder, ValidationError};
use financial_importer::sorting::{sort_entries, sort_records};
use financial_importer::source_record::SourceRecord;
use financial_importer::string_map::StringMap;
use financial_importer::transaction_matcher::definitions::{
    ConfigError, FallbackRuleConfiguration, FinancialImporter, ImporterConfiguration,
    MissingAlias, TransactionRule, TransactionRuleConfiguration,
};
use financial_importer::transaction_matcher::inspection::{classify_hits, RuleMatch};
use financial_importer::transaction_matcher::matcher::EntryError;
use financial_importer::template::{expand_template, is_template, pair_named_captures};
use financial_importer::text::str_before;

fn day(year: u16, month: u8, day: u8) -> Date {
    Date::new(year, month, day).expect("a day of the calendar")
}

fn record(date: Date, description: &str, amount: i64) -> SourceRecord {
    SourceRecord { date, description: description.to_string(), amount }
}

fn entry(date: Date, payee: &str, amount: i64) -> LedgerEntry {
    let mut builder = LedgerEntryBuilder::new(date, payee.to_string());
    builder.add_posting("Assets:Checking".to_string(), amount);
    builder.add_posting("Expenses:Misc".to_string(), -amount);
    builder.build().expect("a valid entry")
}

fn rule(name: &str, pattern: &str, account1: &str, account2: &str, payee: &str) -> TransactionRule {
    TransactionRule::try_from(TransactionRuleConfiguration::new(
        Some(name.to_string()),
        pattern.to_string(),
        account1.to_string(),
        account2.to_string(),
        payee.to_string(),
        None,
    ))
    .expect("a pattern that compiles")
}

fn fallback(payee: &str) -> FallbackRuleConfiguration {
    FallbackRuleConfiguration {
        account1: "unknown".to_string(),
        account2: "checking".to_string(),
        payee: payee.to_string(),
        negate_first_amount: None,
    }
}

fn configuration() -> ImporterConfiguration {
    let mut config = ImporterConfiguration::new();
    config.add_account_alias("checking".to_string(), "Assets:Checking".to_string());
    config.add_account_alias("visa".to_string(), "Liabilities:Visa".to_string());
    config.add_account_alias("rides".to_string(), "Expenses:Rides".to_string());
    config.add_account_alias("unknown".to_string(), "Expenses:Unknown".to_string());
    config.add_transaction_rule(rule("payment", "PAYMENT", "visa", "checking", "Card Payment"));
    config.add_transaction_rule(rule("uber", "(?P<vendor>UBER.*)", "rides", "checking", "{vendor}"));
    config.add_transaction_rule(rule("trip", "TRIP", "rides", "checking", "Trip"));
    config
}

fn importer() -> FinancialImporter {
    configuration().load("bank".to_string(), fallback("Unknown Payee")).expect("a valid configuration")
}

#[test]
fn map_binds_and_rebinds() {
    let mut map: StringMap<i32> = StringMap::new();
    assert_eq!(map.len(), 0);
    assert!(map.get("a").is_none());
    assert!(!map.contains_key("a"));
    map.insert("a".to_string(), 1);
    map.insert("b".to_string(), 2);
    map.insert("a".to_string(), 3);
    assert_eq!(map.len(), 2);
    assert_eq!(map.get("a"), Some(&3));
    assert_eq!(map.get("b"), Some(&2));
    assert!(map.get("c").is_none());
    assert!(map.contains_key("b"));
    let (key, value) = map.entry(0);
    assert_eq!((key.as_str(), *value), ("a", 3));
    let (key, value) = map.entry(1);
    assert_eq!((key.as_str(), *value), ("b", 2));
}

#[test]
fn map_tells_keys_apart_by_their_whole_text() {
    let mut map: StringMap<i32> = StringMap::new();
    map.insert("ab".to_string(), 1);
    map.insert("a".to_string(), 2);
    map.insert("".to_string(), 3);
    assert_eq!(map.get("ab"), Some(&1));
    assert_eq!(map.get("a"), Some(&2));
    assert_eq!(map.get(""), Some(&3));
    assert!(map.get("b").is_none());
}

#[test]
fn texts_are_ordered_like_strings() {
    let samples = ["", "a", "ab", "b", "B", "aa", "a ", "é", "z", "Z", "10", "9", "日本"];
    for a in samples {
        for b in samples {
            assert_eq!(str_before(a, b), a < b, "{:?} before {:?}", a, b);
        }
    }
}

#[test]
fn entries_are_sorted_by_day_then_payee() {
    let sorted = sort_entries(vec![
        entry(day(2024, 3, 1), "Beta", 1),
        entry(day(2024, 1, 9), "Zeta", 2),
        entry(day(2024, 3, 1), "Alpha", 3),
        entry(day(2023, 12, 31), "Omega", 4),
    ]);
    let keys: Vec<(String, String)> =
        sorted.iter().map(|e| (e.date().formatted(), e.payee().clone())).collect();
    assert_eq!(
        keys,
        vec![
            ("2023/12/31".to_string(), "Omega".to_string()),
            ("2024/01/09".to_string(), "Zeta".to_string()),
            ("2024/03/01".to_string(), "Alpha".to_string()),
            ("2024/03/01".to_string(), "Beta".to_string()),
        ]
    );
}

#[test]
fn entries_with_the_same_key_keep_their_order() {
    let sorted = sort_entries(vec![
        entry(day(2024, 3, 1), "Same", 1),
        entry(day(2024, 1, 1), "First", 9),
        entry(day(2024, 3, 1), "Same", 2),
        entry(day(2024, 3, 1), "Same", 3),
    ]);
    let texts: Vec<String> = sorted.iter().map(|e| e.lines()[0].to_string()).collect();
    assert!(texts[0].ends_with("$0.09"));
    assert!(texts[1].ends_with("$0.01"));
    assert!(texts[2].ends_with("$0.02"));
    assert!(texts[3].ends_with("$0.03"));
    assert!(sort_entries(Vec::new()).is_empty());
}

#[test]
fn sorting_agrees_with_the_standard_stable_sort() {
    let days = [day(2024, 1, 2), day(2024, 1, 1), day(2023, 5, 5)];
    let texts = ["b", "a", "", "ab", "a"];
    let mut records = Vec::new();
    let mut n = 0;
    for round in 0..3 {
        for (i, d) in days.iter().enumerate() {
            for (j, t) in texts.iter().enumerate() {
                if (i + j + round) % 2 == 0 {
                    n += 1;
                    records.push(record(*d, t, n));
                }
            }
        }
    }
    let borrowed: Vec<&SourceRecord> = records.iter().collect();
    let mut expected = borrowed.clone();
    expected.sort_by(|a, b| (a.date, &a.description).cmp(&(b.date, &b.description)));
    let sorted = sort_records(borrowed);
    let ours: Vec<i64> = sorted.iter().map(|r| r.amount).collect();
    let theirs: Vec<i64> = expected.iter().map(|r| r.amount).collect();
    assert_eq!(ours, theirs);
}

#[test]
fn records_compare_by_day_and_description() {
    let early = record(day(2024, 1, 1), "B", 5);
    let late = record(day(2024, 1, 2), "A", 5);
    let same_day = record(day(2024, 1, 1), "C", 7);
    let twin = record(day(2024, 1, 1), "B", -900);
    assert!(early.precedes(&late));
    assert!(!late.precedes(&early));
    assert!(early.precedes(&same_day));
    assert!(!early.precedes(&twin));
    assert!(!twin.precedes(&early));
    assert!(early.same_key(&twin));
    assert!(!early.same_key(&same_day));
    assert!(early == twin);
    assert!(early != late);
    assert!(early < late);
    assert!(early < same_day);
    assert!(early <= twin);
    assert!(late > same_day);
}

#[test]
fn entries_compare_by_day_and_payee() {
    let a = entry(day(2024, 1, 1), "Alpha", 5);
    let b = entry(day(2024, 1, 1), "Beta", 5);
    let c = entry(day(2023, 1, 1), "Zeta", 5);
    let twin = entry(day(2024, 1, 1), "Alpha", 77);
    assert!(a.precedes(&b));
    assert!(c.precedes(&a));
    assert!(!a.precedes(&twin));
    assert!(a.same_key(&twin));
    assert!(a == twin);
    assert!(a != b);
    assert!(a < b);
    assert!(c < a);
    assert!(b > c);
}

#[test]
fn record_texts() {
    let r = record(day(2024, 1, 5), "AMEX PAYMENT RECEIVED", -20000);
    assert_eq!(r.formatted_date(), "2024/01/05");
    assert_eq!(r.formatted_amount(), "$-200.00");
    assert_eq!(r.formatted_negative_amount(), "$200.00");
    assert_eq!(
        r.to_string(),
        "Date: 2024-01-05, Description: 'AMEX PAYMENT RECEIVED', Amount: -200"
    );
    assert_eq!(record(day(2024, 1, 5), "x", 1250).to_string(), "Date: 2024-01-05, Description: 'x', Amount: 12.5");
    assert_eq!(record(day(2024, 1, 5), "x", 7).to_string(), "Date: 2024-01-05, Description: 'x', Amount: 0.07");
    assert_eq!(record(day(2024, 1, 5), "x", -1234).to_string(), "Date: 2024-01-05, Description: 'x', Amount: -12.34");
    let least = record(day(2024, 1, 5), "x", i64::MIN);
    assert_eq!(least.formatted_amount(), "$-92,233,720,368,547,758.08");
    assert_eq!(least.formatted_negative_amount(), "$92,233,720,368,547,758.08");
}

#[test]
fn plain_amounts_read_as_floats_print() {
    for minor in [0i64, 1, 10, 100, -100, 1250, -1234, 99999, 100000, -5] {
        let r = record(day(2024, 1, 5), "x", minor);
        let expected =
            format!("Date: 2024-01-05, Description: 'x', Amount: {}", minor as f64 / 100.0);
        assert_eq!(r.to_string(), expected);
    }
}

#[test]
fn a_batch_is_split_sorted_and_counted() {
    let importer = importer();
    let records = vec![
        record(day(2024, 2, 1), "UBER TRIP 9", -900),
        record(day(2024, 1, 9), "GROCERY", -4200),
        record(day(2024, 1, 5), "AMEX PAYMENT", -20000),
        record(day(2024, 1, 2), "BAKERY", -350),
        record(day(2024, 1, 9), "CINEMA", -1200),
        record(day(2024, 1, 7), "BROKEN", i64::MIN),
    ];
    let processed = importer.process_records("bank", &records);
    assert_eq!(processed.matched_count, 2);
    assert_eq!(processed.unmatched_count, 3);
    assert_eq!(processed.errors.len(), 1);
    assert!(matches!(processed.errors[0], EntryError::AmountOutOfRange));
    assert_eq!(processed.status(), BatchStatus::Partial);
    let payees: Vec<(String, String)> = processed
        .entries
        .iter()
        .map(|e| (e.date().formatted(), e.payee().clone()))
        .collect();
    assert_eq!(
        payees,
        vec![
            ("2024/01/02".to_string(), "Unknown Payee".to_string()),
            ("2024/01/05".to_string(), "Card Payment".to_string()),
            ("2024/01/09".to_string(), "Unknown Payee".to_string()),
            ("2024/01/09".to_string(), "Unknown Payee".to_string()),
            ("2024/02/01".to_string(), "Uber Trip 9".to_string()),
        ]
    );
    let unmatched: Vec<&str> =
        processed.unmatched_records.iter().map(|r| r.description.as_str()).collect();
    assert_eq!(unmatched, vec!["BAKERY", "CINEMA", "GROCERY"]);
    // Entries of the same day and payee stay in the order of the input.
    assert!(processed.entries[2].lines()[0].to_string().ends_with("GROCERY"));
    assert!(processed.entries[3].lines()[0].to_string().ends_with("CINEMA"));
}

#[test]
fn a_batch_of_an_unknown_format_is_all_errors() {
    let importer = importer();
    let records = vec![record(day(2024, 1, 1), "A", 1), record(day(2024, 1, 2), "B", 2)];
    let processed = importer.process_records("broker", &records);
    assert!(processed.entries.is_empty());
    assert!(processed.unmatched_records.is_empty());
    assert_eq!(processed.matched_count, 0);
    assert_eq!(processed.unmatched_count, 0);
    assert_eq!(processed.errors.len(), 2);
    assert_eq!(processed.errors[0].to_string(), "File format definition 'broker' not found.");
    assert_eq!(processed.status(), BatchStatus::Partial);
}

#[test]
fn batch_status_tells_nothing_from_all() {
    let importer = importer();
    let none: Vec<SourceRecord> = Vec::new();
    assert_eq!(importer.process_records("bank", &none).status(), BatchStatus::NothingToDo);
    let some = vec![record(day(2024, 1, 1), "A", 1)];
    assert_eq!(importer.process_records("bank", &some).status(), BatchStatus::Complete);
    assert_eq!(gather_results(Vec::new()).status(), BatchStatus::NothingToDo);
}

#[test]
fn loading_checks_the_fallback_rule_too() {
    let mut config = ImporterConfiguration::new();
    config.add_account_alias("checking".to_string(), "Assets:Checking".to_string());
    config.add_transaction_rule(rule("one", "A", "checking", "nowhere", "One"));
    match config.load("bank".to_string(), fallback("Unknown")) {
        Err(ConfigError::UnresolvedAlias { missing }) => {
            let found: Vec<String> = missing.iter().map(|m| m.to_string()).collect();
            assert_eq!(
                found,
                vec![
                    "Account Alias 'nowhere' from Transaction Rule 'one' is not defined.",
                    "Account Alias 'unknown' from Transaction Rule 'Fallback Transaction Rule' is not defined.",
                ]
            );
        }
        other => panic!("expected unresolved aliases, got {:?}", other),
    }
}

#[test]
fn loaded_importer_holds_what_was_configured() {
    let importer = importer();
    assert_eq!(importer.accounts().len(), 4);
    assert_eq!(importer.accounts().get("visa").unwrap(), "Liabilities:Visa");
    assert_eq!(importer.import_file_definitions().len(), 1);
    let set = importer.import_file_definitions().get("bank").unwrap();
    assert_eq!(set.transaction_rules().len(), 3);
    assert_eq!(set.transaction_rules()[1].name(), "uber");
    assert_eq!(set.fallback_rule().payee(), "Unknown Payee");
    assert_eq!(set.rule_patterns().len(), 3);
    assert_eq!(set.rule_patterns().patterns()[2], "TRIP");
}

#[test]
fn later_alias_replaces_earlier() {
    let mut config = ImporterConfiguration::new();
    config.add_account_alias("checking".to_string(), "Assets:Old".to_string());
    config.add_account_alias("checking".to_string(), "Assets:New".to_string());
    assert_eq!(config.accounts.len(), 1);
    assert_eq!(config.accounts.get("checking").unwrap(), "Assets:New");
    assert!(config.transaction_rules.is_empty());
}

#[test]
fn error_messages() {
    assert_eq!(ValidationError::EmptyPayee.to_string(), "Payee must be non-empty.");
    assert_eq!(
        ValidationError::InsufficientPostings { found: 1 }.to_string(),
        "Ledger entry must have 2 or more postings. Found 1."
    );
    assert_eq!(
        ValidationError::UnbalancedEntry { total: 1 }.to_string(),
        "Ledger entry posting lines must balance, found total of 0.01"
    );
    assert_eq!(
        ValidationError::UnbalancedEntry { total: -123450 }.to_string(),
        "Ledger entry posting lines must balance, found total of -1234.50"
    );
    assert_eq!(
        ValidationError::UnbalancedEntry { total: i128::MIN }.to_string(),
        "Ledger entry posting lines must balance, found total of -1701411834604692317316873037158841057.28"
    );
    assert_eq!(
        EntryError::Validation(ValidationError::EmptyPayee).to_string(),
        "Payee must be non-empty."
    );
    assert_eq!(
        EntryError::UnknownAlias { alias: "x".to_string() }.to_string(),
        "Account Alias 'x' is not defined."
    );
    assert_eq!(
        EntryError::TemplateExpansionError { reference: "city".to_string() }.to_string(),
        "The payee template refers to the capture group 'city', which the pattern does not have."
    );
    assert_eq!(
        EntryError::TemplateNoMatch.to_string(),
        "The pattern of the rule does not match the description."
    );
    assert_eq!(EntryError::AmountOutOfRange.to_string(), "The amount is out of range.");
    assert_eq!(EntryError::TooManyMatches.to_string(), "Too many matches!");
    assert_eq!(
        ConfigError::InvalidPattern { rule: "r".to_string(), message: "m".to_string() }.to_string(),
        "Invalid pattern in Transaction Rule 'r': m"
    );
    assert_eq!(
        ConfigError::InvalidPatternSet { message: "m".to_string() }.to_string(),
        "The patterns cannot be compiled into one matcher: m"
    );
    let missing = vec![
        MissingAlias { alias: "a".to_string(), rule: "one".to_string() },
        MissingAlias { alias: "b".to_string(), rule: "two".to_string() },
    ];
    assert_eq!(
        ConfigError::UnresolvedAlias { missing }.to_string(),
        "One or more account alias validation errors were found:\nAccount Alias 'a' from Transaction Rule 'one' is not defined.\nAccount Alias 'b' from Transaction Rule 'two' is not defined."
    );
}

#[test]
fn all_matching_rules_are_told() {
    let importer = importer();
    assert!(importer.match_rule("broker", "UBER").is_none());
    assert!(matches!(importer.match_rule("bank", "GROCERY"), Some(RuleMatch::NoMatch)));
    match importer.match_rule("bank", "AMEX PAYMENT") {
        Some(RuleMatch::Single { rule }) => assert_eq!(rule, 0),
        other => panic!("expected one rule, got {:?}", other),
    }
    match importer.match_rule("bank", "UBER TRIP PAYMENT") {
        Some(RuleMatch::Multiple { rules }) => assert_eq!(rules, vec![0, 1, 2]),
        other => panic!("expected several rules, got {:?}", other),
    }
    match importer.match_rule("bank", "UBER TRIP") {
        Some(RuleMatch::Multiple { rules }) => assert_eq!(rules, vec![1, 2]),
        other => panic!("expected several rules, got {:?}", other),
    }
}

#[test]
fn colliding_rules_are_named() {
    let importer = importer();
    let set = importer.import_file_definitions().get("bank").unwrap();
    assert!(set.colliding_rule_names("GROCERY").is_empty());
    assert!(set.colliding_rule_names("AMEX PAYMENT").is_empty());
    assert_eq!(set.colliding_rule_names("UBER TRIP"), vec!["uber", "trip"]);
    assert_eq!(set.colliding_rule_names("TRIP PAYMENT UBER"), vec!["payment", "uber", "trip"]);
}

#[test]
fn hits_are_classified_by_their_number() {
    assert!(matches!(classify_hits(vec![]), RuleMatch::NoMatch));
    assert!(matches!(classify_hits(vec![3]), RuleMatch::Single { rule: 3 }));
    match classify_hits(vec![1, 4]) {
        RuleMatch::Multiple { rules } => assert_eq!(rules, vec![1, 4]),
        other => panic!("expected several rules, got {:?}", other),
    }
}

#[test]
fn strict_posting_wants_exactly_one_rule() {
    let importer = importer();
    let none = record(day(2024, 1, 9), "GROCERY", -4200);
    assert_eq!(importer.posting_for_record("bank", &none).unwrap(), None);
    let one = record(day(2024, 1, 5), "AMEX PAYMENT", -20000);
    let expected = format!(
        "2024/01/05 Card Payment\n    Liabilities:Visa{}$-200.00\n    Assets:Checking{}$200.00\n",
        " ".repeat(29),
        " ".repeat(28)
    );
    assert_eq!(importer.posting_for_record("bank", &one).unwrap(), Some(expected));
    let several = record(day(2024, 1, 5), "UBER TRIP", -900);
    assert!(matches!(
        importer.posting_for_record("bank", &several),
        Err(EntryError::TooManyMatches)
    ));
    match importer.posting_for_record("broker", &one) {
        Err(EntryError::UnknownFormat { name }) => assert_eq!(name, "broker"),
        other => panic!("expected an unknown format, got {:?}", other),
    }
}

#[test]
fn captured_variables_go_by_group_name() {
    let template = rule("r", r"(?P<vendor>UBER) (\w+) (?P<city>[A-Z]+)?(?P<n>\d+)", "a", "b", "{vendor}");
    let found = template.captured_variables("UBER TRIP 42").unwrap();
    assert_eq!(
        found,
        vec![
            ("vendor".to_string(), "UBER".to_string()),
            ("n".to_string(), "42".to_string()),
        ]
    );
    assert!(template.captured_variables("LYFT").is_none());
    let literal = rule("r", "(?P<vendor>UBER)", "a", "b", "Uber");
    assert!(literal.captured_variables("UBER").is_none());
}

#[test]
fn named_groups_are_paired_with_their_text() {
    let names = vec![None, Some("a".to_string()), Some("b".to_string()), None, Some("c".to_string())];
    let values = vec![Some("whole".to_string()), Some("x".to_string()), None, Some("y".to_string())];
    assert_eq!(pair_named_captures(&names, &values), vec![("a".to_string(), "x".to_string())]);
    assert!(pair_named_captures(&Vec::new(), &values).is_empty());
}

#[test]
fn templates_are_told_by_their_placeholders() {
    assert!(is_template("{vendor}"));
    assert!(is_template("Paid to {1}!"));
    assert!(is_template("{{a}"));
    assert!(is_template("{}{a}"));
    assert!(is_template("{ }"));
    assert!(!is_template(""));
    assert!(!is_template("{}"));
    assert!(!is_template("plain"));
    assert!(!is_template("{open"));
    assert!(!is_template("close}"));
    assert!(!is_template("}{"));
    let detector = regex::Regex::new(r"\{[^}]+\}").unwrap();
    for text in ["{a}", "{}", "x{y}z", "{{}}", "{a", "a}", "}{a}", "{}{}", "{}{b}", "${v}", "{é}"] {
        assert_eq!(is_template(text), detector.is_match(text), "{:?}", text);
    }
}

#[test]
fn expansion_goes_placeholder_by_placeholder() {
    let names = vec![None, Some("vendor".to_string()), None];
    let values = vec![Some("UBER 7".to_string()), Some("UBER".to_string()), None];
    let expand = |template: &str| expand_template(template, &names, &values);
    assert_eq!(expand("{vendor}").unwrap(), "UBER");
    assert_eq!(expand("<{0}>").unwrap(), "<UBER 7>");
    assert_eq!(expand("{1}{2}{01}").unwrap(), "UBERUBER");
    assert_eq!(expand("a{}b{").unwrap(), "a{}b{");
    assert_eq!(expand("}{vendor}{").unwrap(), "}UBER{");
    assert_eq!(expand("").unwrap(), "");
    assert_eq!(expand("{3}").unwrap_err(), "3");
    assert_eq!(expand("{vendor} {city} {zip}").unwrap_err(), "city");
    assert_eq!(expand("{{vendor}").unwrap_err(), "{vendor");
    assert_eq!(expand("{1x}").unwrap_err(), "1x");
}
