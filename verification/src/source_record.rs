//! The records that a bank exports: a day, a free text and a signed amount.

use vstd::prelude::*;
use crate::date::{date_before, date_iso_text, date_text, Date, DateView};
use crate::money::{
    amount_text, format_amount, format_negated_amount, plain_amount_text, push_plain_amount,
};
use crate::text::{str_before, text_before};

verus! {

/// One transaction of the source file. The amount is in minor units and
/// positive for money that came in.
#[derive(Debug)]
pub struct SourceRecord {
    pub date: Date,
    pub description: String,
    pub amount: i64,
}

/// The mathematical content of a [`SourceRecord`].
pub struct SourceRecordView {
    pub date: DateView,
    pub description: Seq<char>,
    pub amount: int,
}

impl View for SourceRecord {
    type V = SourceRecordView;

    open spec fn view(&self) -> SourceRecordView {
        SourceRecordView {
            date: self.date@,
            description: self.description@,
            amount: self.amount as int,
        }
    }
}

/// The order of records: by day, and on one day by description.
pub open spec fn record_before(a: SourceRecordView, b: SourceRecordView) -> bool {
    date_before(a.date, b.date) || (a.date == b.date && text_before(
        a.description,
        b.description,
    ))
}

/// The one-line account of a record.
pub open spec fn record_text(record: SourceRecordView) -> Seq<char> {
    "Date: "@ + date_iso_text(record.date) + ", Description: '"@ + record.description
        + "', Amount: "@ + plain_amount_text(record.amount)
}

impl SourceRecord {
    fn format_amount(&self, negate: bool) -> (text: String)
        ensures
            text@ == amount_text(
                if negate {
                    -self@.amount
                } else {
                    self@.amount
                },
            ),
    {
        if negate {
            format_negated_amount(self.amount)
        } else {
            format_amount(self.amount)
        }
    }

    /// The amount as it stands in a posting.
    #[must_use]
    pub fn formatted_amount(&self) -> (text: String)
        ensures
            text@ == amount_text(self@.amount),
    {
        self.format_amount(false)
    }

    /// The amount with its sign reversed, as it stands in a posting.
    #[must_use]
    pub fn formatted_negative_amount(&self) -> (text: String)
        ensures
            text@ == amount_text(-self@.amount),
    {
        self.format_amount(true)
    }

    /// The day as `YYYY/MM/DD`.
    #[must_use]
    pub fn formatted_date(&self) -> (text: String)
        ensures
            text@ == date_text(self@.date),
    {
        self.date.formatted()
    }

    /// Whether `self` comes strictly before `other`: on an earlier day, or
    /// on the same day with a description that comes first.
    pub fn precedes(&self, other: &SourceRecord) -> (before: bool)
        ensures
            before == record_before(self@, other@),
    {
        if self.date.is_before(&other.date) {
            true
        } else if self.date.is_same_day(&other.date) {
            str_before(self.description.as_str(), other.description.as_str())
        } else {
            false
        }
    }

    /// Whether both have the same day and description. The amount is not
    /// looked at.
    pub fn same_key(&self, other: &SourceRecord) -> (same: bool)
        ensures
            same == (self@.date == other@.date && self@.description == other@.description),
    {
        self.date.is_same_day(&other.date) && self.description == other.description
    }

    /// The record on one line: day, description and amount.
    pub fn to_string(&self) -> (text: String)
        ensures
            text@ == record_text(self@),
    {
        let mut out = String::from_str("Date: ");
        self.date.push_iso_to(&mut out);
        out.append(", Description: '");
        out.append(self.description.as_str());
        out.append("', Amount: ");
        push_plain_amount(&mut out, self.amount);
        assert(out@ =~= record_text(self@));
        out
    }
}

} // verus!
