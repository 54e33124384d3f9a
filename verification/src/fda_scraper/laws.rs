//! What holds of every page: the first failing row decides, every record
//! kept has passed the ceilings, and grouping keeps document order.

use super::catalog::accepted_rows;
use super::catalog::catalogs;
use super::catalog::lemma_failure_stands;
use super::catalog::page_entries;
use super::catalog::ScrapedCatalysts;
use super::date::cell_date;
use super::date::CatalystDate;
use super::dom::document_matches;
use super::dom::text_under;
use super::error::ScrapeError;
use super::error::ScrapeFailure;
use super::grouping::grouped;
use super::grouping::rows_of;
use super::predicates::ScrapePredicates;
use super::row::fixed_selectors;
use super::row::row_outcome;
use super::row::Entry;
use super::row::Record;
use super::row::RowSelectors;
use crate::currency::grammar::parse_money;
use scraper::ElementRef;
use scraper::Html;
use vstd::prelude::*;

verus! {

/// Rows none of which fails yield entries.
proof fn lemma_no_failure(
    rows: Seq<ElementRef>,
    selectors: RowSelectors,
    predicates: ScrapePredicates,
)
    requires
        forall|j: int| 0 <= j < rows.len() ==> row_outcome(rows[j], selectors, predicates) is Ok,
    ensures
        accepted_rows(rows, selectors, predicates) is Ok,
    decreases rows.len(),
{
    if rows.len() > 0 {
        let earlier = rows.drop_last();
        assert forall|j: int| 0 <= j < earlier.len() implies row_outcome(
            earlier[j],
            selectors,
            predicates,
        ) is Ok by {
            assert(earlier[j] == rows[j]);
        }
        lemma_no_failure(earlier, selectors, predicates);
        assert(row_outcome(rows[rows.len() - 1], selectors, predicates) is Ok);
    }
}

/// Fail fast: where a row fails and no row before it does, the rows as a
/// whole fail with that row's failure, whatever the rows after it hold.
pub proof fn lemma_fail_fast(
    rows: Seq<ElementRef>,
    k: int,
    selectors: RowSelectors,
    predicates: ScrapePredicates,
)
    requires
        0 <= k < rows.len(),
        row_outcome(rows[k], selectors, predicates) is Err,
        forall|j: int| 0 <= j < k ==> row_outcome(rows[j], selectors, predicates) is Ok,
    ensures
        accepted_rows(rows, selectors, predicates) == Err::<Seq<Entry>, ScrapeFailure>(
            row_outcome(rows[k], selectors, predicates)->Err_0,
        ),
{
    let before = rows.take(k);
    assert forall|j: int| 0 <= j < before.len() implies row_outcome(
        before[j],
        selectors,
        predicates,
    ) is Ok by {
        assert(before[j] == rows[j]);
    }
    lemma_no_failure(before, selectors, predicates);
    let upto = rows.take(k + 1);
    assert(upto.drop_last() =~= before);
    assert(upto.last() == rows[k]);
    lemma_failure_stands(rows, k + 1, selectors, predicates);
}

/// Whether every entry has passed the ceilings.
pub open spec fn all_pass(entries: Seq<Entry>, predicates: ScrapePredicates) -> bool {
    forall|i: int|
        0 <= i < entries.len() ==> predicates.accepts(
            (#[trigger] entries[i]).record.price,
            entries[i].record.catalyst_date,
        )
}

/// Every entry that rows yield has passed the ceilings.
pub proof fn lemma_accepted_pass(
    rows: Seq<ElementRef>,
    selectors: RowSelectors,
    predicates: ScrapePredicates,
)
    requires
        accepted_rows(rows, selectors, predicates) is Ok,
    ensures
        all_pass(accepted_rows(rows, selectors, predicates)->Ok_0, predicates),
    decreases rows.len(),
{
    if rows.len() > 0 {
        lemma_accepted_pass(rows.drop_last(), selectors, predicates);
    }
}

/// Whether `record` is the record of one of the entries, which carries the
/// key `(label, date)`.
pub open spec fn from_entry(
    entries: Seq<Entry>,
    label: Seq<char>,
    date: CatalystDate,
    record: Record,
) -> bool {
    exists|j: int|
        0 <= j < entries.len() && (#[trigger] entries[j]).label == label && entries[j].record
            == record && record.catalyst_date == date
}

/// Every record under a key is the record of an entry with that key.
pub proof fn lemma_grouped_from_entries(entries: Seq<Entry>, label: Seq<char>, date: CatalystDate)
    ensures
        forall|i: int|
            0 <= i < grouped(entries, label, date).len() ==> from_entry(
                entries,
                label,
                date,
                #[trigger] grouped(entries, label, date)[i],
            ),
    decreases entries.len(),
{
    if entries.len() > 0 {
        let earlier = entries.drop_last();
        let last = entries.last();
        lemma_grouped_from_entries(earlier, label, date);
        let before = grouped(earlier, label, date);
        let records = grouped(entries, label, date);
        assert forall|i: int| 0 <= i < records.len() implies from_entry(
            entries,
            label,
            date,
            #[trigger] records[i],
        ) by {
            if i < before.len() {
                assert(records[i] == before[i]);
                assert(from_entry(earlier, label, date, before[i]));
                let j = choose|j: int|
                    0 <= j < earlier.len() && (#[trigger] earlier[j]).label == label
                        && earlier[j].record == before[i] && before[i].catalyst_date == date;
                assert(entries[j] == earlier[j]);
            } else {
                assert(records[i] == last.record);
                assert(entries[entries.len() - 1] == last);
            }
        }
    }
}

/// Grouping keeps document order: what stands under a key is the
/// subsequence of the entries with that key, each by its record.
pub proof fn lemma_grouping_keeps_order(entries: Seq<Entry>, label: Seq<char>, date: CatalystDate)
    ensures
        grouped(entries, label, date) == entries.filter(
            |e: Entry| e.label == label && e.record.catalyst_date == date,
        ).map_values(|e: Entry| e.record),
    decreases entries.len(),
{
    reveal(Seq::filter);
    let with_key = |e: Entry| e.label == label && e.record.catalyst_date == date;
    let record_of = |e: Entry| e.record;
    if entries.len() == 0 {
        assert(grouped(entries, label, date) =~= entries.filter(with_key).map_values(record_of));
    } else {
        lemma_grouping_keeps_order(entries.drop_last(), label, date);
        let earlier = entries.drop_last().filter(with_key);
        if with_key(entries.last()) {
            assert(earlier.push(entries.last()).map_values(record_of) =~= earlier.map_values(
                record_of,
            ).push(entries.last().record));
        }
        assert(grouped(entries, label, date) =~= entries.filter(with_key).map_values(record_of));
    }
}

/// A row whose price cell is a dollar amount and whose date cell is not a
/// date fails with the date failure, whatever the ceilings and whatever
/// else the row holds.
pub proof fn lemma_malformed_date(
    row: ElementRef,
    selectors: RowSelectors,
    predicates: ScrapePredicates,
)
    requires
        text_under(row, selectors.price) is Ok,
        parse_money(text_under(row, selectors.price)->Ok_0) is Ok,
        text_under(row, selectors.catalyst_date) is Ok,
        cell_date(text_under(row, selectors.catalyst_date)->Ok_0) is Err,
    ensures
        row_outcome(row, selectors, predicates) == Err::<Option<Entry>, ScrapeFailure>(
            ScrapeFailure::DateParseFailure(
                cell_date(text_under(row, selectors.catalyst_date)->Ok_0)->Err_0,
            ),
        ),
{
}

/// Fail fast, for a whole page: where the fixed selectors compile, a row of
/// the page fails and no row before it does, the page has no catalog.
/// Whatever is the outcome for the page is that row's failure, however well
/// formed the rows after it are.
pub proof fn lemma_page_fails_fast(
    document: Html,
    predicates: ScrapePredicates,
    k: int,
    r: Result<ScrapedCatalysts, ScrapeError>,
)
    requires
        fixed_selectors() is Ok,
        0 <= k < document_matches(&document, fixed_selectors()->Ok_0.event_table_row).len(),
        row_outcome(
            document_matches(&document, fixed_selectors()->Ok_0.event_table_row)[k],
            fixed_selectors()->Ok_0,
            predicates,
        ) is Err,
        forall|j: int|
            0 <= j < k ==> row_outcome(
                document_matches(&document, fixed_selectors()->Ok_0.event_table_row)[j],
                fixed_selectors()->Ok_0,
                predicates,
            ) is Ok,
        catalogs(r, page_entries(document, predicates)),
    ensures
        r is Err,
        r->Err_0@ == row_outcome(
            document_matches(&document, fixed_selectors()->Ok_0.event_table_row)[k],
            fixed_selectors()->Ok_0,
            predicates,
        )->Err_0,
{
    let selectors = fixed_selectors()->Ok_0;
    lemma_fail_fast(
        document_matches(&document, selectors.event_table_row),
        k,
        selectors,
        predicates,
    );
}

/// Fail fast on a malformed date: where the fixed selectors compile and the
/// first row of the page that fails has a dollar amount for its price and no
/// date in its date cell, the outcome for the page is the date failure, and
/// no catalog.
pub proof fn lemma_page_with_malformed_date(
    document: Html,
    predicates: ScrapePredicates,
    k: int,
    r: Result<ScrapedCatalysts, ScrapeError>,
)
    requires
        fixed_selectors() is Ok,
        0 <= k < document_matches(&document, fixed_selectors()->Ok_0.event_table_row).len(),
        ({
            let selectors = fixed_selectors()->Ok_0;
            let row = document_matches(&document, selectors.event_table_row)[k];
            &&& text_under(row, selectors.price) is Ok
            &&& parse_money(text_under(row, selectors.price)->Ok_0) is Ok
            &&& text_under(row, selectors.catalyst_date) is Ok
            &&& cell_date(text_under(row, selectors.catalyst_date)->Ok_0) is Err
        }),
        forall|j: int|
            0 <= j < k ==> row_outcome(
                document_matches(&document, fixed_selectors()->Ok_0.event_table_row)[j],
                fixed_selectors()->Ok_0,
                predicates,
            ) is Ok,
        catalogs(r, page_entries(document, predicates)),
    ensures
        r is Err,
        r->Err_0@ is DateParseFailure,
{
    let selectors = fixed_selectors()->Ok_0;
    let row = document_matches(&document, selectors.event_table_row)[k];
    lemma_malformed_date(row, selectors, predicates);
    lemma_page_fails_fast(document, predicates, k, r);
}

/// Grouping order, for a whole page: where the page yields entries, the
/// outcome for the page is a catalog that holds under every key the
/// subsequence of the page's entries with that key, each by its record, in
/// the order in which the page's rows are matched.
pub proof fn lemma_page_groups_keep_order(
    document: Html,
    predicates: ScrapePredicates,
    r: Result<ScrapedCatalysts, ScrapeError>,
    label: Seq<char>,
    date: CatalystDate,
)
    requires
        page_entries(document, predicates) is Ok,
        catalogs(r, page_entries(document, predicates)),
    ensures
        r is Ok,
        rows_of(r->Ok_0@, label, date) == page_entries(document, predicates)->Ok_0.filter(
            |e: Entry| e.label == label && e.record.catalyst_date == date,
        ).map_values(|e: Entry| e.record),
{
    let entries = page_entries(document, predicates)->Ok_0;
    lemma_grouping_keeps_order(entries, label, date);
    assert(rows_of(r->Ok_0@, label, date) == grouped(entries, label, date));
}

} // verus!
