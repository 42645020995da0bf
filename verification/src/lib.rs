//! Classifies dated bank records into balanced double-entry ledger entries
//! by matching their descriptions against an ordered set of pattern rules.
//!
//! A configuration names accounts by aliases and binds patterns to pairs of
//! accounts and to a payee. Loading it compiles the patterns and checks the
//! aliases. A loaded importer then turns each record of an input file into
//! a ledger entry: by the first rule whose pattern matches the description
//! of the record, or else by the fallback rule of the format.

pub mod batch;
pub mod casing;
pub mod comparison;
pub mod date;
pub mod ledger_entry;
pub mod money;
pub mod pattern;
pub mod sorting;
pub mod source_record;
pub mod string_map;
pub mod template;
pub mod text;
pub mod transaction_matcher;

pub use source_record::SourceRecord;
pub use transaction_matcher::definitions::{
    ImporterConfiguration, TransactionRule, TransactionRuleConfiguration,
};
pub use transaction_matcher::FinancialImporter;
