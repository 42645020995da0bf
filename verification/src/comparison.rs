//! `==` and `<` on records and entries.
//!
//! Records are equal and ordered by day and description, entries by day
//! and payee. Amounts and lines are not looked at.

use vstd::prelude::*;
use vstd::std_specs::cmp::{PartialEqSpecImpl, PartialOrdSpecImpl};
use core::cmp::Ordering;
use crate::ledger_entry::{entry_before, LedgerEntry};
use crate::source_record::{record_before, SourceRecord};

verus! {

impl PartialEq for SourceRecord {
    fn eq(&self, other: &Self) -> (same: bool) {
        self.same_key(other)
    }
}

impl PartialEqSpecImpl for SourceRecord {
    open spec fn obeys_eq_spec() -> bool {
        true
    }

    open spec fn eq_spec(&self, other: &Self) -> bool {
        self@.date == other@.date && self@.description == other@.description
    }
}

impl PartialOrd for SourceRecord {
    fn partial_cmp(&self, other: &Self) -> (order: Option<Ordering>) {
        if self.precedes(other) {
            Some(Ordering::Less)
        } else if other.precedes(self) {
            Some(Ordering::Greater)
        } else {
            Some(Ordering::Equal)
        }
    }
}

impl PartialOrdSpecImpl for SourceRecord {
    open spec fn obeys_partial_cmp_spec() -> bool {
        true
    }

    open spec fn partial_cmp_spec(&self, other: &Self) -> Option<Ordering> {
        if record_before(self@, other@) {
            Some(Ordering::Less)
        } else if record_before(other@, self@) {
            Some(Ordering::Greater)
        } else {
            Some(Ordering::Equal)
        }
    }
}

impl PartialEq for LedgerEntry {
    fn eq(&self, other: &Self) -> (same: bool) {
        self.same_key(other)
    }
}

impl PartialEqSpecImpl for LedgerEntry {
    open spec fn obeys_eq_spec() -> bool {
        true
    }

    open spec fn eq_spec(&self, other: &Self) -> bool {
        self@.date == other@.date && self@.payee == other@.payee
    }
}

impl PartialOrd for LedgerEntry {
    fn partial_cmp(&self, other: &Self) -> (order: Option<Ordering>) {
        if self.precedes(other) {
            Some(Ordering::Less)
        } else if other.precedes(self) {
            Some(Ordering::Greater)
        } else {
            Some(Ordering::Equal)
        }
    }
}

impl PartialOrdSpecImpl for LedgerEntry {
    open spec fn obeys_partial_cmp_spec() -> bool {
        true
    }

    open spec fn partial_cmp_spec(&self, other: &Self) -> Option<Ordering> {
        if entry_before(self@, other@) {
            Some(Ordering::Less)
        } else if entry_before(other@, self@) {
            Some(Ordering::Greater)
        } else {
            Some(Ordering::Equal)
        }
    }
}

} // verus!
