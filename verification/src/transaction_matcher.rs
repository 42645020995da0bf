//! Rule sets: how they are loaded and how they turn a record into an entry.

pub mod definitions;
pub mod inspection;
pub mod matcher;

pub use definitions::FinancialImporter;
pub use matcher::GeneratedLedgerEntry;
