//! Ledger entries and the builder that validates them.
//!
//! An entry is a date, a payee and a list of lines, each a comment or a
//! posting of a signed amount in minor units to an account. Entries exist
//! only in validated form: the payee is not empty, there are at least two
//! postings, and the posted amounts add up to zero.

use vstd::prelude::*;
use crate::date::{date_before, date_text, Date, DateView};
use crate::money::{amount_text, format_amount, push_two_decimal, two_decimal_text};
use crate::text::{
    byte_len, decimal, push_char, push_decimal, push_right_aligned, push_spaces, right_aligned,
    spaces, str_before, text_before,
};

verus! {

/// One line of a ledger entry.
#[derive(Debug)]
pub enum EntryLine {
    Comment { comment: String },
    Posting { account: String, amount: i64 },
}

/// The mathematical content of an [`EntryLine`].
pub enum EntryLineView {
    Comment { comment: Seq<char> },
    Posting { account: Seq<char>, amount: int },
}

impl View for EntryLine {
    type V = EntryLineView;

    open spec fn view(&self) -> EntryLineView {
        match *self {
            EntryLine::Comment { comment } => EntryLineView::Comment { comment: comment@ },
            EntryLine::Posting { account, amount } => EntryLineView::Posting {
                account: account@,
                amount: amount as int,
            },
        }
    }
}

/// The content of each line, in order.
pub open spec fn lines_view(lines: Seq<EntryLine>) -> Seq<EntryLineView> {
    lines.map_values(|line: EntryLine| line@)
}

/// How many of the lines are postings.
pub open spec fn posting_count(lines: Seq<EntryLineView>) -> nat
    decreases lines.len(),
{
    if lines.len() == 0 {
        0
    } else {
        posting_count(lines.drop_last()) + if lines.last() is Posting {
            1nat
        } else {
            0nat
        }
    }
}

/// The sum of the amounts of all postings among the lines.
pub open spec fn posting_total(lines: Seq<EntryLineView>) -> int
    decreases lines.len(),
{
    if lines.len() == 0 {
        0
    } else {
        posting_total(lines.drop_last()) + match lines.last() {
            EntryLineView::Posting { amount, .. } => amount,
            EntryLineView::Comment { .. } => 0,
        }
    }
}

/// The postings among the lines, in order.
pub open spec fn postings(lines: Seq<EntryLineView>) -> Seq<EntryLineView>
    decreases lines.len(),
{
    if lines.len() == 0 {
        Seq::empty()
    } else {
        postings(lines.drop_last()) + if lines.last() is Posting {
            seq![lines.last()]
        } else {
            Seq::empty()
        }
    }
}

/// The number of spaces before every line of an entry.
pub const ENTRY_LINE_INDENT_AMOUNT: usize = 3;

/// The column, counted from zero, at which the amounts of the postings end.
pub const RIGHT_ALIGN_COLUMN: usize = 67;

/// The width in which the amount of a posting is aligned to the right:
/// what the indent, the account and a space leave of the line up to the
/// column where amounts end. The account counts by its bytes.
pub open spec fn amount_width(account: Seq<char>) -> nat {
    if byte_len(account) >= RIGHT_ALIGN_COLUMN - ENTRY_LINE_INDENT_AMOUNT {
        0
    } else {
        (RIGHT_ALIGN_COLUMN - ENTRY_LINE_INDENT_AMOUNT - byte_len(account)) as nat
    }
}

/// The text of a line: the indent, then a semicolon and the comment, or
/// the account and the amount aligned to the right.
pub open spec fn line_text(line: EntryLineView) -> Seq<char> {
    match line {
        EntryLineView::Comment { comment } => spaces(ENTRY_LINE_INDENT_AMOUNT as nat) + "; "@
            + comment,
        EntryLineView::Posting { account, amount } => spaces(ENTRY_LINE_INDENT_AMOUNT as nat)
            + account.push(' ') + right_aligned(amount_text(amount), amount_width(account)),
    }
}

/// The text of the lines, each ended by a line feed.
pub open spec fn lines_text(lines: Seq<EntryLineView>) -> Seq<char>
    decreases lines.len(),
{
    if lines.len() == 0 {
        Seq::empty()
    } else {
        lines_text(lines.drop_last()) + line_text(lines.last()).push('\n')
    }
}

/// The text of an entry: the day and the payee on the first line, then
/// the lines.
pub open spec fn entry_text(entry: LedgerEntryView) -> Seq<char> {
    (date_text(entry.date).push(' ') + entry.payee).push('\n') + lines_text(entry.lines)
}

/// The text of a ledger: each entry followed by an empty line.
pub open spec fn ledger_text(entries: Seq<LedgerEntryView>) -> Seq<char>
    decreases entries.len(),
{
    if entries.len() == 0 {
        Seq::empty()
    } else {
        ledger_text(entries.drop_last()) + entry_text(entries.last()).push('\n')
    }
}

/// The order of entries: by day, and on one day by payee.
pub open spec fn entry_before(a: LedgerEntryView, b: LedgerEntryView) -> bool {
    date_before(a.date, b.date) || (a.date == b.date && text_before(a.payee, b.payee))
}

/// The content of each entry of a list.
pub open spec fn entries_view(entries: Seq<LedgerEntry>) -> Seq<LedgerEntryView> {
    entries.map_values(|entry: LedgerEntry| entry@)
}

/// Why a builder's content cannot become a ledger entry.
#[derive(Clone, Copy, Debug, PartialEq, Eq, Structural)]
pub enum ValidationError {
    /// The payee is the empty string.
    EmptyPayee,
    /// Fewer than two lines are postings; `found` is their number.
    InsufficientPostings { found: usize },
    /// The posted amounts add up to `total`, which is not zero.
    UnbalancedEntry { total: i128 },
}

/// What a validation error says of itself.
pub open spec fn validation_message(error: ValidationError) -> Seq<char> {
    match error {
        ValidationError::EmptyPayee => "Payee must be non-empty."@,
        ValidationError::InsufficientPostings { found } => {
            "Ledger entry must have 2 or more postings. Found "@ + decimal(found as nat) + "."@
        },
        ValidationError::UnbalancedEntry { total } => {
            "Ledger entry posting lines must balance, found total of "@ + two_decimal_text(
                total as int,
            )
        },
    }
}

impl ValidationError {
    /// The error in words.
    pub fn to_string(&self) -> (text: String)
        ensures
            text@ == validation_message(*self),
    {
        match *self {
            ValidationError::EmptyPayee => String::from_str("Payee must be non-empty."),
            ValidationError::InsufficientPostings { found } => {
                let mut out = String::from_str(
                    "Ledger entry must have 2 or more postings. Found ",
                );
                push_decimal(&mut out, found as u128);
                out.append(".");
                assert(out@ =~= validation_message(*self));
                out
            },
            ValidationError::UnbalancedEntry { total } => {
                let mut out = String::from_str(
                    "Ledger entry posting lines must balance, found total of ",
                );
                push_two_decimal(&mut out, total);
                out
            },
        }
    }
}

/// The first rule that the content breaks, checked in the order payee,
/// number of postings, balance; `None` when it breaks none.
pub open spec fn validation_failure(payee: Seq<char>, lines: Seq<EntryLineView>) -> Option<
    ValidationError,
> {
    if payee.len() == 0 {
        Some(ValidationError::EmptyPayee)
    } else if posting_count(lines) < 2 {
        Some(ValidationError::InsufficientPostings { found: posting_count(lines) as usize })
    } else if posting_total(lines) != 0 {
        Some(ValidationError::UnbalancedEntry { total: posting_total(lines) as i128 })
    } else {
        None
    }
}

/// Counting and summing go line by line.
pub proof fn lemma_postings_push(lines: Seq<EntryLineView>, line: EntryLineView)
    ensures
        posting_count(lines.push(line)) == posting_count(lines) + if line is Posting {
            1nat
        } else {
            0nat
        },
        posting_total(lines.push(line)) == posting_total(lines) + match line {
            EntryLineView::Posting { amount, .. } => amount,
            EntryLineView::Comment { .. } => 0,
        },
        postings(lines.push(line)) == postings(lines) + if line is Posting {
            seq![line]
        } else {
            Seq::empty()
        },
{
    assert(lines.push(line).drop_last() =~= lines);
}

/// The postings of lines put one after the other are the postings of the
/// first lines and then those of the second; their numbers and their
/// sums add up.
pub proof fn lemma_postings_concat(first: Seq<EntryLineView>, second: Seq<EntryLineView>)
    ensures
        postings(first + second) == postings(first) + postings(second),
        posting_count(first + second) == posting_count(first) + posting_count(second),
        posting_total(first + second) == posting_total(first) + posting_total(second),
    decreases second.len(),
{
    if second.len() == 0 {
        assert(first + second =~= first);
        assert(postings(first) + postings(second) =~= postings(first));
    } else {
        lemma_postings_concat(first, second.drop_last());
        assert((first + second).drop_last() =~= first + second.drop_last());
        assert(postings(first + second) =~= postings(first) + postings(second));
    }
}

/// Lines that are all comments hold no posting.
pub proof fn lemma_comments_hold_no_posting(lines: Seq<EntryLineView>)
    requires
        forall|i: int| 0 <= i < lines.len() ==> #[trigger] lines[i] is Comment,
    ensures
        postings(lines) == Seq::<EntryLineView>::empty(),
        posting_count(lines) == 0,
        posting_total(lines) == 0,
    decreases lines.len(),
{
    if lines.len() > 0 {
        lemma_comments_hold_no_posting(lines.drop_last());
        assert(lines[lines.len() - 1] is Comment);
        assert(postings(lines) =~= Seq::<EntryLineView>::empty());
    }
}

/// In a valid entry the payee is not empty, at least two lines are
/// postings, and the posted amounts add up to exactly zero.
pub proof fn lemma_valid_entry_balances(entry: LedgerEntryView)
    requires
        is_valid_entry(entry),
    ensures
        entry.payee.len() > 0,
        posting_count(entry.lines) >= 2,
        posting_total(entry.lines) == 0,
{
}

/// There are no more postings than lines, and their sum is bounded by the
/// largest amount a posting can hold times their number.
pub proof fn lemma_postings_bounds(lines: Seq<EntryLine>)
    ensures
        posting_count(lines_view(lines)) <= lines.len(),
        -0x8000_0000_0000_0000 * lines.len() <= posting_total(lines_view(lines))
            <= 0x7fff_ffff_ffff_ffff * lines.len(),
    decreases lines.len(),
{
    if lines.len() > 0 {
        lemma_postings_bounds(lines.drop_last());
        assert(lines_view(lines).drop_last() =~= lines_view(lines.drop_last()));
    }
}

/// Collects the lines of an entry before it is validated.
pub struct LedgerEntryBuilder {
    pub date: Date,
    pub payee: String,
    pub lines: Vec<EntryLine>,
}

/// The mathematical content of a [`LedgerEntry`].
pub struct LedgerEntryView {
    pub date: DateView,
    pub payee: Seq<char>,
    pub lines: Seq<EntryLineView>,
}

/// Whether the content passes every validation rule.
pub open spec fn is_valid_entry(entry: LedgerEntryView) -> bool {
    validation_failure(entry.payee, entry.lines) is None
}

/// A validated ledger entry. It cannot be changed once built.
#[derive(Debug)]
pub struct LedgerEntry {
    date: Date,
    payee: String,
    lines: Vec<EntryLine>,
}

impl View for LedgerEntry {
    type V = LedgerEntryView;

    closed spec fn view(&self) -> LedgerEntryView {
        LedgerEntryView {
            date: self.date@,
            payee: self.payee@,
            lines: lines_view(self.lines@),
        }
    }
}

impl EntryLine {
    /// Appends the text of the line to `out`.
    pub fn push_to(&self, out: &mut String)
        ensures
            final(out)@ == old(out)@ + line_text(self@),
    {
        push_spaces(out, ENTRY_LINE_INDENT_AMOUNT);
        match self {
            EntryLine::Comment { comment } => {
                out.append("; ");
                out.append(comment.as_str());
                assert(out@ =~= old(out)@ + line_text(self@));
            },
            EntryLine::Posting { account, amount } => {
                let formatted_amount: String = format_amount(*amount);
                let taken: usize = account.as_str().as_bytes().len();
                let width: usize = if taken >= RIGHT_ALIGN_COLUMN - ENTRY_LINE_INDENT_AMOUNT {
                    0
                } else {
                    RIGHT_ALIGN_COLUMN - ENTRY_LINE_INDENT_AMOUNT - taken
                };
                assert(width == amount_width(account@));
                out.append(account.as_str());
                push_char(out, ' ');
                push_right_aligned(out, formatted_amount.as_str(), width);
                assert(out@ =~= old(out)@ + line_text(self@));
            },
        }
    }

    /// The text of the line.
    pub fn to_string(&self) -> (text: String)
        ensures
            text@ == line_text(self@),
    {
        let mut out = String::new();
        self.push_to(&mut out);
        assert(out@ =~= line_text(self@));
        out
    }
}

impl LedgerEntryBuilder {
    /// What `build` would freeze, were it to succeed.
    pub open spec fn content(&self) -> LedgerEntryView {
        LedgerEntryView {
            date: self.date@,
            payee: self.payee@,
            lines: lines_view(self.lines@),
        }
    }

    /// Starts an entry with no lines.
    #[must_use]
    pub fn new(date: Date, payee: String) -> (builder: Self)
        ensures
            builder.content() == (LedgerEntryView {
                date: date@,
                payee: payee@,
                lines: Seq::empty(),
            }),
    {
        let lines = Vec::new();
        let builder = Self { date, payee, lines };
        assert(builder.content().lines =~= Seq::empty());
        builder
    }

    /// Appends a comment line.
    pub fn add_comment(&mut self, comment: String)
        ensures
            final(self).content() == (LedgerEntryView {
                lines: old(self).content().lines.push(
                    EntryLineView::Comment { comment: comment@ },
                ),
                ..old(self).content()
            }),
    {
        let entry_line = EntryLine::Comment { comment };
        self.lines.push(entry_line);
        assert(self.content().lines =~= old(self).content().lines.push(
            EntryLineView::Comment { comment: comment@ },
        ));
    }

    /// Appends a posting of `amount` minor units to `account`.
    pub fn add_posting(&mut self, account: String, amount: i64)
        ensures
            final(self).content() == (LedgerEntryView {
                lines: old(self).content().lines.push(
                    EntryLineView::Posting { account: account@, amount: amount as int },
                ),
                ..old(self).content()
            }),
    {
        let entry_line = EntryLine::Posting { account, amount };
        self.lines.push(entry_line);
        assert(self.content().lines =~= old(self).content().lines.push(
            EntryLineView::Posting { account: account@, amount: amount as int },
        ));
    }

    /// Validates the content and freezes it. Fails with the first rule that
    /// the content breaks, and succeeds when it breaks none.
    pub fn build(self) -> (result: Result<LedgerEntry, ValidationError>)
        ensures
            match result {
                Ok(entry) => is_valid_entry(self.content()) && entry@ == self.content(),
                Err(e) => validation_failure(self.content().payee, self.content().lines)
                    == Some(e),
            },
    {
        match self.validate() {
            Ok(()) => Ok(LedgerEntry { date: self.date, payee: self.payee, lines: self.lines }),
            Err(e) => Err(e),
        }
    }

    /// Checks the validation rules in order: the payee is not empty, at
    /// least two lines are postings, and the posted amounts add up to zero.
    pub fn validate(&self) -> (result: Result<(), ValidationError>)
        ensures
            match result {
                Ok(()) => is_valid_entry(self.content()),
                Err(e) => validation_failure(self.content().payee, self.content().lines)
                    == Some(e),
            },
    {
        if self.payee.as_str().is_empty() {
            return Err(ValidationError::EmptyPayee);
        }
        let mut total: i128 = 0;
        let mut count: usize = 0;
        let mut i: usize = 0;
        while i < self.lines.len()
            invariant
                i <= self.lines.len(),
                count == posting_count(lines_view(self.lines@.take(i as int))),
                total == posting_total(lines_view(self.lines@.take(i as int))),
            decreases self.lines.len() - i,
        {
            proof {
                let before = self.lines@.take(i as int);
                let line = self.lines@[i as int];
                assert(self.lines@.take(i + 1) =~= before.push(line));
                assert(lines_view(before.push(line)) =~= lines_view(before).push(line@));
                lemma_postings_push(lines_view(before), line@);
                lemma_postings_bounds(before.push(line));
            }
            match &self.lines[i] {
                EntryLine::Posting { account: _, amount } => {
                    count = count + 1;
                    total = total + *amount as i128;
                },
                EntryLine::Comment { comment: _ } => {},
            }
            i = i + 1;
        }
        assert(self.lines@.take(i as int) =~= self.lines@);
        if count < 2 {
            return Err(ValidationError::InsufficientPostings { found: count });
        }
        if total != 0 {
            return Err(ValidationError::UnbalancedEntry { total });
        }
        Ok(())
    }
}

impl LedgerEntry {
    #[verifier::type_invariant]
    spec fn well_formed(self) -> bool {
        is_valid_entry(self@)
    }

    /// The day of the entry.
    pub fn date(&self) -> (date: Date)
        ensures
            date@ == self@.date,
    {
        self.date
    }

    /// The payee, which is never empty.
    pub fn payee(&self) -> (payee: &String)
        ensures
            payee@ == self@.payee,
            payee@.len() > 0,
    {
        proof {
            use_type_invariant(self);
        }
        &self.payee
    }

    /// The lines in order. At least two of them are postings, and the
    /// posted amounts add up to zero.
    pub fn lines(&self) -> (lines: &Vec<EntryLine>)
        ensures
            lines_view(lines@) == self@.lines,
            posting_count(self@.lines) >= 2,
            posting_total(self@.lines) == 0,
    {
        proof {
            use_type_invariant(self);
        }
        &self.lines
    }

    /// Whether `self` comes strictly before `other`: on an earlier day, or
    /// on the same day with a payee that comes first.
    pub fn precedes(&self, other: &LedgerEntry) -> (before: bool)
        ensures
            before == entry_before(self@, other@),
    {
        if self.date.is_before(&other.date) {
            true
        } else if self.date.is_same_day(&other.date) {
            str_before(self.payee.as_str(), other.payee.as_str())
        } else {
            false
        }
    }

    /// Whether both have the same day and payee. The lines are not looked at.
    pub fn same_key(&self, other: &LedgerEntry) -> (same: bool)
        ensures
            same == (self@.date == other@.date && self@.payee == other@.payee),
    {
        self.date.is_same_day(&other.date) && self.payee == other.payee
    }

    /// Appends the text of the entry to `out`.
    pub fn push_to(&self, out: &mut String)
        ensures
            final(out)@ == old(out)@ + entry_text(self@),
    {
        self.date.push_to(out);
        push_char(out, ' ');
        out.append(self.payee.as_str());
        push_char(out, '\n');
        let ghost head = out@;
        let mut i: usize = 0;
        assert(lines_view(self.lines@).take(0) =~= Seq::empty());
        assert(out@ =~= head + lines_text(lines_view(self.lines@).take(0)));
        while i < self.lines.len()
            invariant
                i <= self.lines.len(),
                out@ == head + lines_text(lines_view(self.lines@).take(i as int)),
            decreases self.lines.len() - i,
        {
            let ghost before = out@;
            self.lines[i].push_to(out);
            push_char(out, '\n');
            proof {
                let all = lines_view(self.lines@);
                assert(all.take(i + 1).drop_last() =~= all.take(i as int));
                assert(all.take(i + 1).last() == self.lines@[i as int]@);
                assert(out@ =~= head + lines_text(all.take(i + 1)));
            }
            i = i + 1;
        }
        assert(lines_view(self.lines@).take(i as int) =~= lines_view(self.lines@));
        assert(out@ =~= old(out)@ + entry_text(self@));
    }

    /// The text of the entry.
    pub fn to_string(&self) -> (text: String)
        ensures
            text@ == entry_text(self@),
    {
        let mut out = String::new();
        self.push_to(&mut out);
        assert(out@ =~= entry_text(self@));
        out
    }
}

/// The text of a ledger file: the entries in the order given, each
/// followed by an empty line.
pub fn render_ledger_entries(entries: &Vec<LedgerEntry>) -> (text: String)
    ensures
        text@ == ledger_text(entries_view(entries@)),
{
    let mut out = String::new();
    let mut i: usize = 0;
    assert(entries_view(entries@).take(0) =~= Seq::empty());
    while i < entries.len()
        invariant
            i <= entries.len(),
            out@ == ledger_text(entries_view(entries@).take(i as int)),
        decreases entries.len() - i,
    {
        entries[i].push_to(&mut out);
        push_char(&mut out, '\n');
        proof {
            let all = entries_view(entries@);
            assert(all.take(i + 1).drop_last() =~= all.take(i as int));
            assert(all.take(i + 1).last() == entries@[i as int]@);
        }
        i = i + 1;
    }
    assert(entries_view(entries@).take(i as int) =~= entries_view(entries@));
    out
}

} // verus!
