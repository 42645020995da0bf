//! Processing the records of one input file.
//!
//! Every record is matched on its own. The entries that came of them are
//! gathered and sorted for the ledger, the records that fell to the
//! fallback rule are sorted for review, and what went wrong with single
//! records is kept beside what went well.

use vstd::prelude::*;
use crate::ledger_entry::{entries_view, LedgerEntry, LedgerEntryView};
use crate::sorting::{records_view, sort_entries, sort_records, stable_sort};
use crate::source_record::{SourceRecord, SourceRecordView};
use crate::transaction_matcher::definitions::{FinancialImporter, FinancialImporterView};
use crate::transaction_matcher::matcher::{
    generated_result_view, importer_entry, EntryError, EntryErrorView, GeneratedLedgerEntry,
    GeneratedLedgerEntryView,
};

verus! {

/// What matching one record came to.
pub type Outcome = Result<GeneratedLedgerEntryView, EntryErrorView>;

/// The entries made by rules that matched, in the order of their records.
pub open spec fn matched_entries(outcomes: Seq<Outcome>) -> Seq<LedgerEntryView>
    decreases outcomes.len(),
{
    if outcomes.len() == 0 {
        Seq::empty()
    } else {
        matched_entries(outcomes.drop_last()) + match outcomes.last() {
            Ok(GeneratedLedgerEntryView::ByMatchedRule { ledger_entry, .. }) => seq![
                ledger_entry,
            ],
            _ => Seq::empty(),
        }
    }
}

/// The entries made by the fallback rule, in the order of their records.
pub open spec fn fallback_entries(outcomes: Seq<Outcome>) -> Seq<LedgerEntryView>
    decreases outcomes.len(),
{
    if outcomes.len() == 0 {
        Seq::empty()
    } else {
        fallback_entries(outcomes.drop_last()) + match outcomes.last() {
            Ok(GeneratedLedgerEntryView::ByFallback { ledger_entry, .. }) => seq![ledger_entry],
            _ => Seq::empty(),
        }
    }
}

/// The records that fell to the fallback rule, in the order in which
/// they came.
pub open spec fn fallback_records(outcomes: Seq<Outcome>) -> Seq<SourceRecordView>
    decreases outcomes.len(),
{
    if outcomes.len() == 0 {
        Seq::empty()
    } else {
        fallback_records(outcomes.drop_last()) + match outcomes.last() {
            Ok(GeneratedLedgerEntryView::ByFallback { source_record, .. }) => seq![
                source_record,
            ],
            _ => Seq::empty(),
        }
    }
}

/// The errors, in the order of their records.
pub open spec fn failures(outcomes: Seq<Outcome>) -> Seq<EntryErrorView>
    decreases outcomes.len(),
{
    if outcomes.len() == 0 {
        Seq::empty()
    } else {
        failures(outcomes.drop_last()) + match outcomes.last() {
            Err(e) => seq![e],
            Ok(_) => Seq::empty(),
        }
    }
}

/// What an importer makes of each record of a list.
pub open spec fn outcomes_of(
    importer: FinancialImporterView,
    format: Seq<char>,
    records: Seq<SourceRecord>,
) -> Seq<Outcome> {
    records.map_values(|record: SourceRecord| importer_entry(importer, format, record@))
}

/// The content of each result of a list.
pub open spec fn results_view(
    results: Seq<Result<GeneratedLedgerEntry<'_>, EntryError>>,
) -> Seq<Outcome> {
    results.map_values(
        |result: Result<GeneratedLedgerEntry<'_>, EntryError>| generated_result_view(result),
    )
}

/// The content of each error of a list.
pub open spec fn errors_view(errors: Seq<EntryError>) -> Seq<EntryErrorView> {
    errors.map_values(|e: EntryError| e@)
}

/// How a batch went as a whole.
#[derive(Clone, Copy, Debug, PartialEq, Eq, Structural)]
pub enum BatchStatus {
    /// No entry was made and nothing went wrong: there was nothing to do.
    NothingToDo,
    /// Every record became an entry.
    Complete,
    /// Some records did not become entries; the others did, if any.
    Partial,
}

/// What came of the records of one input file.
#[derive(Debug)]
pub struct ProcessedRecords<'a> {
    /// All entries, those of the fallback rule too, sorted by day and payee.
    pub entries: Vec<LedgerEntry>,
    /// The records that fell to the fallback rule, sorted by day and
    /// description.
    pub unmatched_records: Vec<&'a SourceRecord>,
    /// The number of entries made by rules that matched.
    pub matched_count: usize,
    /// The number of entries made by the fallback rule.
    pub unmatched_count: usize,
    /// What went wrong, record by record.
    pub errors: Vec<EntryError>,
}

/// Whether `processed` is what comes of these outcomes: the entries of
/// the rules that matched and then those of the fallback rule, sorted;
/// the records of the latter, sorted; their numbers; and the errors.
pub open spec fn is_processing_of(processed: ProcessedRecords<'_>, outcomes: Seq<Outcome>)
    -> bool {
    &&& entries_view(processed.entries@) == stable_sort(
        matched_entries(outcomes) + fallback_entries(outcomes),
    )
    &&& records_view(processed.unmatched_records@) == stable_sort(fallback_records(outcomes))
    &&& processed.matched_count == matched_entries(outcomes).len()
    &&& processed.unmatched_count == fallback_entries(outcomes).len()
    &&& errors_view(processed.errors@) == failures(outcomes)
}

impl<'a> ProcessedRecords<'a> {
    /// How the batch went as a whole.
    pub fn status(&self) -> (status: BatchStatus)
        ensures
            status == if self.errors@.len() > 0 {
                BatchStatus::Partial
            } else if self.entries@.len() == 0 {
                BatchStatus::NothingToDo
            } else {
                BatchStatus::Complete
            },
    {
        if self.errors.len() > 0 {
            BatchStatus::Partial
        } else if self.entries.len() == 0 {
            BatchStatus::NothingToDo
        } else {
            BatchStatus::Complete
        }
    }
}

/// Each outcome adds to at most one of the lists.
proof fn lemma_outcomes_push(outcomes: Seq<Outcome>, outcome: Outcome)
    ensures
        matched_entries(outcomes.push(outcome)) == matched_entries(outcomes) + match outcome {
            Ok(GeneratedLedgerEntryView::ByMatchedRule { ledger_entry, .. }) => seq![
                ledger_entry,
            ],
            _ => Seq::empty(),
        },
        fallback_entries(outcomes.push(outcome)) == fallback_entries(outcomes) + match outcome {
            Ok(GeneratedLedgerEntryView::ByFallback { ledger_entry, .. }) => seq![ledger_entry],
            _ => Seq::empty(),
        },
        fallback_records(outcomes.push(outcome)) == fallback_records(outcomes) + match outcome {
            Ok(GeneratedLedgerEntryView::ByFallback { source_record, .. }) => seq![
                source_record,
            ],
            _ => Seq::empty(),
        },
        failures(outcomes.push(outcome)) == failures(outcomes) + match outcome {
            Err(e) => seq![e],
            Ok(_) => Seq::empty(),
        },
{
    assert(outcomes.push(outcome).drop_last() =~= outcomes);
}

/// Gathers the results of matching the records of one file: sorts the
/// entries by day and payee and the records that fell to the fallback
/// rule by day and description, counts both kinds of entries, and keeps
/// the errors in the order in which they came.
pub fn gather_results<'a>(
    results: Vec<Result<GeneratedLedgerEntry<'a>, EntryError>>,
) -> (processed: ProcessedRecords<'a>)
    ensures
        is_processing_of(processed, results_view(results@)),
{
    let ghost all = results_view(results@);
    let ghost given = results@;
    let mut matched: Vec<LedgerEntry> = Vec::new();
    let mut unmatched: Vec<LedgerEntry> = Vec::new();
    let mut unmatched_records: Vec<&'a SourceRecord> = Vec::new();
    let mut errors: Vec<EntryError> = Vec::new();
    assert(all.take(0) =~= Seq::empty());
    assert(entries_view(matched@) =~= Seq::empty());
    assert(entries_view(unmatched@) =~= Seq::empty());
    assert(records_view(unmatched_records@) =~= Seq::empty());
    assert(errors_view(errors@) =~= Seq::empty());
    for result in it: results
        invariant
            it.seq() == given,
            all == results_view(given),
            entries_view(matched@) == matched_entries(all.take(it.index() as int)),
            entries_view(unmatched@) == fallback_entries(all.take(it.index() as int)),
            records_view(unmatched_records@) == fallback_records(all.take(it.index() as int)),
            errors_view(errors@) == failures(all.take(it.index() as int)),
    {
        proof {
            let n = it.index() as int;
            assert(all.take(n + 1) =~= all.take(n).push(generated_result_view(result)));
            lemma_outcomes_push(all.take(n), generated_result_view(result));
        }
        match result {
            Ok(GeneratedLedgerEntry::ByMatchedRule { ledger_entry, source_record: _ }) => {
                assert(entries_view(matched@.push(ledger_entry)) =~= entries_view(matched@).push(
                    ledger_entry@,
                ));
                matched.push(ledger_entry);
            },
            Ok(GeneratedLedgerEntry::ByFallback { ledger_entry, source_record }) => {
                assert(entries_view(unmatched@.push(ledger_entry)) =~= entries_view(
                    unmatched@,
                ).push(ledger_entry@));
                assert(records_view(unmatched_records@.push(source_record)) =~= records_view(
                    unmatched_records@,
                ).push(source_record@));
                unmatched.push(ledger_entry);
                unmatched_records.push(source_record);
            },
            Err(e) => {
                assert(errors_view(errors@.push(e)) =~= errors_view(errors@).push(e@));
                errors.push(e);
            },
        }
    }
    proof {
        assert(all.take(all.len() as int) =~= all);
        assert(entries_view(matched@ + unmatched@) =~= entries_view(matched@) + entries_view(
            unmatched@,
        ));
    }
    let matched_count = matched.len();
    let unmatched_count = unmatched.len();
    let mut entries = matched;
    entries.append(&mut unmatched);
    ProcessedRecords {
        entries: sort_entries(entries),
        unmatched_records: sort_records(unmatched_records),
        matched_count,
        unmatched_count,
        errors,
    }
}

impl FinancialImporter {
    /// Matches every record of a file of the format `format_name` and
    /// gathers what came of them. A record that cannot become an entry
    /// does not stop the others: its error is kept with the rest.
    pub fn process_records<'a>(
        &self,
        format_name: &str,
        records: &'a Vec<SourceRecord>,
    ) -> (processed: ProcessedRecords<'a>)
        ensures
            is_processing_of(processed, outcomes_of(self@, format_name@, records@)),
    {
        let mut results: Vec<Result<GeneratedLedgerEntry<'a>, EntryError>> = Vec::new();
        let mut i: usize = 0;
        let ghost all = outcomes_of(self@, format_name@, records@);
        while i < records.len()
            invariant
                i <= records.len(),
                all == outcomes_of(self@, format_name@, records@),
                results_view(results@) == all.take(i as int),
            decreases records.len() - i,
        {
            let result = self.ledger_entry_for_source_record(format_name, &records[i]);
            proof {
                assert(all[i as int] == generated_result_view(result));
                assert(results_view(results@.push(result)) =~= results_view(results@).push(
                    generated_result_view(result),
                ));
                assert(all.take(i + 1) =~= all.take(i as int).push(all[i as int]));
            }
            results.push(result);
            i = i + 1;
        }
        assert(all.take(i as int) =~= all);
        gather_results(results)
    }
}

} // verus!
