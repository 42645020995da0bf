//! Sorting by day and text.
//!
//! Records are ordered by day and description, entries by day and payee.
//! Both sorts are stable: items with the same key stay in the order in
//! which they came, so that what is written does not depend on anything
//! but the input.

use vstd::prelude::*;
use crate::date::{date_before, DateView};
use crate::ledger_entry::{entries_view, LedgerEntry, LedgerEntryView};
use crate::source_record::{SourceRecord, SourceRecordView};
use crate::text::text_before;

verus! {

/// The key of the order: first the day, then the text.
pub open spec fn key_before(a: (DateView, Seq<char>), b: (DateView, Seq<char>)) -> bool {
    date_before(a.0, b.0) || (a.0 == b.0 && text_before(a.1, b.1))
}

/// What is sorted by a day and a text.
pub trait Keyed {
    /// The day and the text that the item is sorted by.
    spec fn sort_key(self) -> (DateView, Seq<char>);
}

impl Keyed for LedgerEntryView {
    open spec fn sort_key(self) -> (DateView, Seq<char>) {
        (self.date, self.payee)
    }
}

impl Keyed for SourceRecordView {
    open spec fn sort_key(self) -> (DateView, Seq<char>) {
        (self.date, self.description)
    }
}

/// Whether `a` comes strictly before `b`.
pub open spec fn item_before<V: Keyed>(a: V, b: V) -> bool {
    key_before(a.sort_key(), b.sort_key())
}

/// Whether no item comes before an item that stands earlier in the list.
pub open spec fn is_ordered<V: Keyed>(items: Seq<V>) -> bool {
    forall|i: int, j: int| 0 <= i < j < items.len() ==> !item_before(items[j], items[i])
}

/// How many items at the head of the list come strictly before `item`:
/// the place of `item` in an ordered list, behind what comes before it
/// and ahead of what has the same key.
pub open spec fn insert_position<V: Keyed>(sorted: Seq<V>, item: V) -> int
    decreases sorted.len(),
{
    if sorted.len() == 0 || !item_before(sorted[0], item) {
        0
    } else {
        1 + insert_position(sorted.drop_first(), item)
    }
}

/// The items in order, those with the same key in the order in which
/// they stand in `items`.
pub open spec fn stable_sort<V: Keyed>(items: Seq<V>) -> Seq<V>
    decreases items.len(),
{
    if items.len() == 0 {
        Seq::empty()
    } else {
        let rest = stable_sort(items.drop_first());
        rest.insert(insert_position(rest, items[0]), items[0])
    }
}

/// Of two texts, at most one comes before the other.
pub proof fn lemma_text_before_asymmetric(a: Seq<char>, b: Seq<char>)
    requires
        text_before(a, b),
    ensures
        !text_before(b, a),
    decreases a.len(),
{
    if a.len() > 0 && a[0] == b[0] {
        lemma_text_before_asymmetric(a.drop_first(), b.drop_first());
    }
}

/// Of two different texts, one comes before the other.
pub proof fn lemma_text_before_total(a: Seq<char>, b: Seq<char>)
    requires
        a != b,
    ensures
        text_before(a, b) || text_before(b, a),
    decreases a.len(),
{
    if a.len() == 0 || b.len() == 0 {
        assert(!(a.len() == 0 && b.len() == 0)) by {
            if a.len() == 0 && b.len() == 0 {
                assert(a =~= b);
            }
        }
    } else if a[0] == b[0] {
        assert(a.drop_first() != b.drop_first()) by {
            if a.drop_first() == b.drop_first() {
                assert(a =~= seq![a[0]] + a.drop_first());
                assert(b =~= seq![b[0]] + b.drop_first());
            }
        }
        lemma_text_before_total(a.drop_first(), b.drop_first());
    }
}

/// The order of texts is transitive.
pub proof fn lemma_text_before_transitive(a: Seq<char>, b: Seq<char>, c: Seq<char>)
    requires
        text_before(a, b),
        text_before(b, c),
    ensures
        text_before(a, c),
    decreases a.len(),
{
    if a.len() > 0 && a[0] == b[0] && b[0] == c[0] {
        lemma_text_before_transitive(a.drop_first(), b.drop_first(), c.drop_first());
    }
}

/// The order of keys is a strict total order: of two keys at most one
/// comes before the other, of two different keys one does, and what comes
/// before a key comes before all that the key comes before.
pub proof fn lemma_key_order(
    a: (DateView, Seq<char>),
    b: (DateView, Seq<char>),
    c: (DateView, Seq<char>),
)
    ensures
        key_before(a, b) ==> !key_before(b, a),
        a != b ==> key_before(a, b) || key_before(b, a),
        key_before(a, b) && key_before(b, c) ==> key_before(a, c),
        !key_before(b, a) && key_before(b, c) ==> key_before(a, c),
{
    if text_before(a.1, b.1) {
        lemma_text_before_asymmetric(a.1, b.1);
    }
    if a.1 != b.1 {
        lemma_text_before_total(a.1, b.1);
    }
    if text_before(a.1, b.1) && text_before(b.1, c.1) {
        lemma_text_before_transitive(a.1, b.1, c.1);
    }
    if a.0 == b.0 && !date_before(a.0, b.0) && a.1 == b.1 {
        assert(a == b);
    }
}

/// The place of an item in a list: all before it come strictly before
/// the item, and the item at it, if any, does not.
pub proof fn lemma_insert_position<V: Keyed>(sorted: Seq<V>, item: V)
    ensures
        0 <= insert_position(sorted, item) <= sorted.len(),
        forall|k: int|
            0 <= k < insert_position(sorted, item) ==> item_before(#[trigger] sorted[k], item),
        insert_position(sorted, item) < sorted.len() ==> !item_before(
            sorted[insert_position(sorted, item)],
            item,
        ),
    decreases sorted.len(),
{
    if sorted.len() > 0 && item_before(sorted[0], item) {
        lemma_insert_position(sorted.drop_first(), item);
        let rest = sorted.drop_first();
        assert forall|k: int| 0 <= k < insert_position(sorted, item) implies item_before(
            #[trigger] sorted[k],
            item,
        ) by {
            if k > 0 {
                assert(sorted[k] == rest[k - 1]);
            }
        }
        if insert_position(sorted, item) < sorted.len() {
            assert(sorted[insert_position(sorted, item)] == rest[insert_position(rest, item)]);
        }
    }
}

/// Putting an item at its place keeps an ordered list ordered.
pub proof fn lemma_insert_keeps_order<V: Keyed>(sorted: Seq<V>, item: V)
    requires
        is_ordered(sorted),
    ensures
        is_ordered(sorted.insert(insert_position(sorted, item), item)),
{
    let at = insert_position(sorted, item);
    let longer = sorted.insert(at, item);
    lemma_insert_position(sorted, item);
    sorted.insert_ensures(at, item);
    assert forall|i: int, j: int| 0 <= i < j < longer.len() implies !item_before(
        longer[j],
        longer[i],
    ) by {
        if j < at {
            assert(longer[i] == sorted[i] && longer[j] == sorted[j]);
        } else if j == at {
            assert(longer[i] == sorted[i]);
            assert(item_before(sorted[i], item));
            lemma_key_order(sorted[i].sort_key(), item.sort_key(), item.sort_key());
        } else {
            assert(longer[j] == sorted[j - 1]);
            if i < at {
                assert(longer[i] == sorted[i]);
            } else if i == at {
                // What stands at the place does not come before the item,
                // and nothing behind it comes before what stands at it.
                if j - 1 > at {
                    assert(!item_before(sorted[j - 1], sorted[at]));
                }
                lemma_key_order(
                    sorted[at].sort_key(),
                    sorted[j - 1].sort_key(),
                    item.sort_key(),
                );
            } else {
                assert(longer[i] == sorted[i - 1]);
            }
        }
    }
}

/// Sorting yields an ordered list of the same items, each as often as it
/// came.
pub proof fn lemma_stable_sort<V: Keyed>(items: Seq<V>)
    ensures
        is_ordered(stable_sort(items)),
        stable_sort(items).len() == items.len(),
        stable_sort(items).to_multiset() == items.to_multiset(),
    decreases items.len(),
{
    broadcast use vstd::multiset::group_multiset_axioms;

    if items.len() == 0 {
        assert(items =~= Seq::<V>::empty());
    } else {
        let rest = stable_sort(items.drop_first());
        lemma_stable_sort(items.drop_first());
        lemma_insert_position(rest, items[0]);
        lemma_insert_keeps_order(rest, items[0]);
        rest.insert_ensures(insert_position(rest, items[0]), items[0]);
        vstd::seq_lib::to_multiset_insert(rest, insert_position(rest, items[0]), items[0]);
        assert(items =~= seq![items[0]] + items.drop_first());
        vstd::seq_lib::to_multiset_insert(items.drop_first(), 0, items[0]);
        assert(items.drop_first().insert(0, items[0]) =~= items);
    }
}

/// The content of each record of a list.
pub open spec fn records_view(records: Seq<&SourceRecord>) -> Seq<SourceRecordView> {
    records.map_values(|record: &SourceRecord| record@)
}

/// Finds the place of `item` among the sorted entries.
fn entry_position(sorted: &Vec<LedgerEntry>, item: &LedgerEntry) -> (at: usize)
    ensures
        at == insert_position(entries_view(sorted@), item@),
        at <= sorted.len(),
{
    let ghost all = entries_view(sorted@);
    let mut at: usize = 0;
    assert(all.skip(0) =~= all);
    while at < sorted.len() && sorted[at].precedes(item)
        invariant
            at <= sorted.len(),
            all == entries_view(sorted@),
            insert_position(all, item@) == at + insert_position(all.skip(at as int), item@),
        decreases sorted.len() - at,
    {
        assert(all.skip(at as int).drop_first() =~= all.skip(at + 1));
        at = at + 1;
    }
    at
}

/// Finds the place of `item` among the sorted records.
fn record_position(sorted: &Vec<&SourceRecord>, item: &SourceRecord) -> (at: usize)
    ensures
        at == insert_position(records_view(sorted@), item@),
        at <= sorted.len(),
{
    let ghost all = records_view(sorted@);
    let mut at: usize = 0;
    assert(all.skip(0) =~= all);
    while at < sorted.len() && sorted[at].precedes(item)
        invariant
            at <= sorted.len(),
            all == records_view(sorted@),
            insert_position(all, item@) == at + insert_position(all.skip(at as int), item@),
        decreases sorted.len() - at,
    {
        assert(all.skip(at as int).drop_first() =~= all.skip(at + 1));
        at = at + 1;
    }
    at
}

/// Sorts entries by day and payee. Entries of the same day and payee stay
/// in the order in which they came.
pub fn sort_entries(entries: Vec<LedgerEntry>) -> (sorted: Vec<LedgerEntry>)
    ensures
        entries_view(sorted@) == stable_sort(entries_view(entries@)),
        is_ordered(entries_view(sorted@)),
        entries_view(sorted@).to_multiset() == entries_view(entries@).to_multiset(),
{
    let ghost all = entries_view(entries@);
    let mut rest = entries;
    let mut sorted: Vec<LedgerEntry> = Vec::new();
    assert(all.skip(all.len() as int) =~= Seq::empty());
    assert(entries_view(sorted@) =~= Seq::empty());
    while rest.len() > 0
        invariant
            rest@.len() <= all.len(),
            entries_view(rest@) == all.take(rest@.len() as int),
            entries_view(sorted@) == stable_sort(all.skip(rest@.len() as int)),
        decreases rest.len(),
    {
        let ghost before = rest@;
        let ghost done = entries_view(sorted@);
        let item = rest.pop().unwrap();
        let at = entry_position(&sorted, &item);
        proof {
            let n = rest@.len() as int;
            assert(item@ == entries_view(before)[n]);
            assert(entries_view(rest@) =~= all.take(n));
            assert(all.skip(n).drop_first() =~= all.skip(n + 1));
            assert(all.skip(n)[0] == item@);
            assert(entries_view(sorted@.insert(at as int, item)) =~= done.insert(
                at as int,
                item@,
            ));
        }
        sorted.insert(at, item);
    }
    proof {
        assert(all.skip(0) =~= all);
        lemma_stable_sort(all);
    }
    sorted
}

/// Sorts records by day and description. Records of the same day and
/// description stay in the order in which they came.
pub fn sort_records<'a>(records: Vec<&'a SourceRecord>) -> (sorted: Vec<&'a SourceRecord>)
    ensures
        records_view(sorted@) == stable_sort(records_view(records@)),
        is_ordered(records_view(sorted@)),
        records_view(sorted@).to_multiset() == records_view(records@).to_multiset(),
{
    let ghost all = records_view(records@);
    let mut rest = records;
    let mut sorted: Vec<&'a SourceRecord> = Vec::new();
    assert(all.skip(all.len() as int) =~= Seq::empty());
    assert(records_view(sorted@) =~= Seq::empty());
    while rest.len() > 0
        invariant
            rest@.len() <= all.len(),
            records_view(rest@) == all.take(rest@.len() as int),
            records_view(sorted@) == stable_sort(all.skip(rest@.len() as int)),
        decreases rest.len(),
    {
        let ghost before = rest@;
        let ghost done = records_view(sorted@);
        let item = rest.pop().unwrap();
        let at = record_position(&sorted, item);
        proof {
            let n = rest@.len() as int;
            assert(item@ == records_view(before)[n]);
            assert(records_view(rest@) =~= all.take(n));
            assert(all.skip(n).drop_first() =~= all.skip(n + 1));
            assert(all.skip(n)[0] == item@);
            assert(records_view(sorted@.insert(at as int, item)) =~= done.insert(
                at as int,
                item@,
            ));
        }
        sorted.insert(at, item);
    }
    proof {
        assert(all.skip(0) =~= all);
        lemma_stable_sort(all);
    }
    sorted
}

} // verus!
