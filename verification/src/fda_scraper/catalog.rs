//! The catalog: accepted records grouped by label and date, in key order.

use super::date::CatalystDate;
use super::dom::document_matches;
use super::dom::parse_document;
use super::dom::parseable;
use super::dom::parsed_document;
use super::dom::select_all;
use super::error::ScrapeError;
use super::error::ScrapeFailure;
use super::grouping::group_lt;
use super::grouping::grouped;
use super::grouping::key_lt;
use super::grouping::lemma_extend_group;
use super::grouping::lemma_key_order;
use super::grouping::lemma_place_group;
use super::grouping::rows_of;
use super::grouping::sorted_groups;
use super::grouping::Group;
use super::predicates::ScrapePredicates;
use super::row::assemble_row;
use super::row::fixed_selectors;
use super::row::row_outcome;
use super::row::Entry;
use super::row::ParsedRow;
use super::row::PhaseLabel;
use super::row::Record;
use super::row::RowSelectors;
use scraper::ElementRef;
use scraper::Html;
use vstd::prelude::*;

verus! {

/// The records that share one label and one date, in document order.
#[derive(Debug, PartialEq, Eq)]
pub struct CatalystGroup {
    pub label: PhaseLabel,
    pub date: CatalystDate,
    pub rows: Vec<ParsedRow>,
}

/// Records as contracts see them.
pub open spec fn records_of(rows: Seq<ParsedRow>) -> Seq<Record> {
    Seq::new(rows.len(), |i: int| rows[i]@)
}

impl View for CatalystGroup {
    type V = Group;

    open spec fn view(&self) -> Group {
        Group { label: self.label@, date: self.date, records: records_of(self.rows@) }
    }
}

/// Groups as contracts see them.
pub open spec fn groups_of(groups: Seq<CatalystGroup>) -> Seq<Group> {
    Seq::new(groups.len(), |i: int| groups[i]@)
}

/// The accepted records of one page, grouped by label and date. The groups
/// stand in ascending order of `(label, date)`; none is empty, and each
/// holds records of its own date only.
#[derive(Debug, PartialEq, Eq)]
pub struct ScrapedCatalysts {
    catalysts: Vec<CatalystGroup>,
}

impl View for ScrapedCatalysts {
    type V = Seq<Group>;

    closed spec fn view(&self) -> Seq<Group> {
        groups_of(self.catalysts@)
    }
}

/// The entries that a sequence of rows yields, in the order of the rows, or
/// the failure of the first row that fails. Rows that a ceiling drops yield
/// nothing.
pub open spec fn accepted_rows(
    rows: Seq<ElementRef>,
    selectors: RowSelectors,
    predicates: ScrapePredicates,
) -> Result<Seq<Entry>, ScrapeFailure>
    decreases rows.len(),
{
    if rows.len() == 0 {
        Ok(Seq::empty())
    } else {
        match accepted_rows(rows.drop_last(), selectors, predicates) {
            Err(failure) => Err(failure),
            Ok(entries) => match row_outcome(rows.last(), selectors, predicates) {
                Err(failure) => Err(failure),
                Ok(None) => Ok(entries),
                Ok(Some(entry)) => Ok(entries.push(entry)),
            },
        }
    }
}

/// What a page yields under given selectors: what the rows that the row
/// selector matches yield, in the order in which they are matched.
pub open spec fn document_entries(
    document: Html,
    selectors: RowSelectors,
    predicates: ScrapePredicates,
) -> Result<Seq<Entry>, ScrapeFailure> {
    accepted_rows(document_matches(&document, selectors.event_table_row), selectors, predicates)
}

/// What a page yields: the failure of the first of the fixed selectors that
/// does not compile, or what the page yields under the fixed selectors.
pub open spec fn page_entries(document: Html, predicates: ScrapePredicates) -> Result<
    Seq<Entry>,
    ScrapeFailure,
> {
    match fixed_selectors() {
        Err(failure) => Err(failure),
        Ok(selectors) => document_entries(document, selectors, predicates),
    }
}

/// Whether `r` is the catalog of `expected`: the same failure, or a sorted
/// catalog that holds under every key exactly the entries with that key, in
/// their order.
pub open spec fn catalogs(
    r: Result<ScrapedCatalysts, ScrapeError>,
    expected: Result<Seq<Entry>, ScrapeFailure>,
) -> bool {
    match expected {
        Err(failure) => r is Err && r->Err_0@ == failure,
        Ok(entries) => {
            &&& r is Ok
            &&& r->Ok_0.well_formed()
            &&& forall|label: Seq<char>, date: CatalystDate|
                #[trigger] rows_of(r->Ok_0@, label, date) == grouped(entries, label, date)
        },
    }
}

/// A failure among the first `k` rows is the failure of all the rows.
pub proof fn lemma_failure_stands(
    rows: Seq<ElementRef>,
    k: int,
    selectors: RowSelectors,
    predicates: ScrapePredicates,
)
    requires
        0 <= k <= rows.len(),
        accepted_rows(rows.take(k), selectors, predicates) is Err,
    ensures
        accepted_rows(rows, selectors, predicates) == accepted_rows(
            rows.take(k),
            selectors,
            predicates,
        ),
    decreases rows.len() - k,
{
    if k == rows.len() {
        assert(rows.take(k) =~= rows);
    } else {
        assert(rows.take(k + 1).drop_last() =~= rows.take(k));
        lemma_failure_stands(rows, k + 1, selectors, predicates);
    }
}

/// Whether the group is keyed strictly before `(label, date)`.
fn group_before(group: &CatalystGroup, label: &PhaseLabel, date: &CatalystDate) -> (before: bool)
    ensures
        before == key_lt(group.label@, group.date, label@, *date),
{
    if group.label < *label {
        true
    } else {
        group.label.0 == label.0 && group.date < *date
    }
}

impl ScrapedCatalysts {
    /// Whether the groups are in ascending key order, none is empty and
    /// each holds records of its own date only. Every catalog is: no code
    /// outside this type can make one that is not.
    pub open spec fn well_formed(&self) -> bool {
        sorted_groups(self@)
    }

    #[verifier::type_invariant]
    spec fn sorted(&self) -> bool {
        sorted_groups(groups_of(self.catalysts@))
    }

    /// The catalog without records.
    pub fn empty() -> (catalog: ScrapedCatalysts)
        ensures
            catalog@ == Seq::<Group>::empty(),
            catalog.well_formed(),
    {
        let catalog = ScrapedCatalysts { catalysts: Vec::new() };
        assert(catalog@ =~= Seq::<Group>::empty());
        catalog
    }

    /// The groups, in key order.
    pub fn groups(&self) -> (groups: &Vec<CatalystGroup>)
        ensures
            groups_of(groups@) == self@,
            self.well_formed(),
    {
        proof {
            use_type_invariant(self);
        }
        &self.catalysts
    }

    /// Adds a record under `(label, row.catalyst_date)`: at the end of the
    /// group with that key, or as a new group in its place in key order.
    pub fn insert(&mut self, label: PhaseLabel, row: ParsedRow)
        ensures
            final(self).well_formed(),
            forall|l: Seq<char>, d: CatalystDate|
                #[trigger] rows_of(final(self)@, l, d) == if l == label@ && d
                    == row.catalyst_date {
                    rows_of(old(self)@, l, d).push(row@)
                } else {
                    rows_of(old(self)@, l, d)
                },
    {
        proof {
            use_type_invariant(&*self);
        }
        let date = row.catalyst_date;
        let ghost before = self@;
        let ghost record = row@;
        let mut groups: Vec<CatalystGroup> = Vec::new();
        core::mem::swap(&mut self.catalysts, &mut groups);
        assert(groups_of(groups@) == before);
        let mut i: usize = 0;
        while i < groups.len() && group_before(&groups[i], &label, &date)
            invariant
                i <= groups.len(),
                groups_of(groups@) == before,
                forall|j: int|
                    0 <= j < i ==> key_lt(
                        (#[trigger] before[j]).label,
                        before[j].date,
                        label@,
                        date,
                    ),
            decreases groups.len() - i,
        {
            i += 1;
        }
        let found = i < groups.len() && groups[i].label.0 == label.0 && groups[i].date == date;
        if found {
            let ghost kept = groups[i as int].rows@;
            groups[i].rows.push(row);
            proof {
                lemma_extend_group(before, i as int, record);
                assert(records_of(kept.push(row)) =~= records_of(kept).push(record));
                assert(groups_of(groups@) =~= before.update(
                    i as int,
                    Group { records: before[i as int].records.push(record), ..before[i as int] },
                ));
            }
        } else {
            let mut rows: Vec<ParsedRow> = Vec::new();
            rows.push(row);
            let group = CatalystGroup { label, date, rows };
            let ghost placed = group@;
            proof {
                assert(placed.records =~= seq![record]);
                assert forall|j: int| i <= j < before.len() implies group_lt(
                    placed,
                    #[trigger] before[j],
                ) by {
                    let at = before[i as int];
                    lemma_key_order(at.label, at.date, placed.label, placed.date, at.label, at.date);
                    assert(group_lt(placed, at));
                    if i < j {
                        let later = before[j];
                        assert(group_lt(at, later));
                        lemma_key_order(
                            placed.label,
                            placed.date,
                            at.label,
                            at.date,
                            later.label,
                            later.date,
                        );
                    }
                }
                lemma_place_group(before, i as int, placed);
            }
            groups.insert(i, group);
            proof {
                assert(groups_of(groups@) =~= before.insert(i as int, placed));
            }
        }
        core::mem::swap(&mut self.catalysts, &mut groups);
    }

    /// Builds the catalog of a sequence of rows: each row's record, unless a
    /// ceiling drops the row, under its label and date. The first row that
    /// fails ends the build with its failure, and no catalog is returned.
    pub fn from_rows<'a>(
        rows: &Vec<ElementRef<'a>>,
        selectors: &RowSelectors,
        predicates: &ScrapePredicates,
    ) -> (r: Result<ScrapedCatalysts, ScrapeError>)
        ensures
            catalogs(r, accepted_rows(rows@, *selectors, *predicates)),
    {
        let mut catalog = ScrapedCatalysts::empty();
        let ghost mut entries: Seq<Entry> = Seq::empty();
        let mut i: usize = 0;
        assert(rows@.take(0) =~= Seq::<ElementRef>::empty());
        while i < rows.len()
            invariant
                i <= rows.len(),
                catalog.well_formed(),
                accepted_rows(rows@.take(i as int), *selectors, *predicates) == Ok::<
                    Seq<Entry>,
                    ScrapeFailure,
                >(entries),
                forall|label: Seq<char>, date: CatalystDate|
                    #[trigger] rows_of(catalog@, label, date) == grouped(entries, label, date),
            decreases rows.len() - i,
        {
            proof {
                assert(rows@.take(i + 1).drop_last() =~= rows@.take(i as int));
                assert(rows@.take(i + 1).last() == rows@[i as int]);
            }
            match assemble_row(&rows[i], selectors, predicates) {
                Err(e) => {
                    proof {
                        lemma_failure_stands(rows@, i + 1, *selectors, *predicates);
                    }
                    return Err(e);
                },
                Ok(None) => {},
                Ok(Some((label, row))) => {
                    let ghost entry = Entry { label: label@, record: row@ };
                    proof {
                        assert(entries.push(entry).drop_last() =~= entries);
                    }
                    catalog.insert(label, row);
                    proof {
                        entries = entries.push(entry);
                    }
                },
            }
            i += 1;
        }
        assert(rows@.take(i as int) =~= rows@);
        Ok(catalog)
    }

    /// Builds the catalog of a parsed page with selectors that were compiled
    /// beforehand, under the given ceilings.
    pub fn build(document: &Html, selectors: &RowSelectors, predicates: &ScrapePredicates) -> (r:
        Result<ScrapedCatalysts, ScrapeError>)
        ensures
            catalogs(r, document_entries(*document, *selectors, *predicates)),
    {
        let rows = select_all(document, &selectors.event_table_row);
        ScrapedCatalysts::from_rows(&rows, selectors, predicates)
    }

    /// Builds the catalog of a parsed page under the given ceilings. The
    /// fixed selectors are compiled first; one that does not compile is the
    /// failure.
    pub fn new(document: &Html, predicates: &ScrapePredicates) -> (r: Result<
        ScrapedCatalysts,
        ScrapeError,
    >)
        ensures
            catalogs(r, page_entries(*document, *predicates)),
    {
        let selectors = match RowSelectors::compile() {
            Ok(selectors) => selectors,
            Err(e) => {
                return Err(e);
            },
        };
        ScrapedCatalysts::build(document, &selectors, predicates)
    }
}

/// Builds the catalog of a page given as text, under the given ceilings.
/// The text must be short enough for the parser.
pub fn parse_rows(contents: &str, predicates: ScrapePredicates) -> (r: Result<
    ScrapedCatalysts,
    ScrapeError,
>)
    requires
        parseable(contents@),
    ensures
        catalogs(r, page_entries(parsed_document(contents@), predicates)),
{
    let document = parse_document(contents);
    ScrapedCatalysts::new(&document, &predicates)
}

/// Builds the catalog of a page given as text, keeping every row. The text
/// must be short enough for the parser.
pub fn parse_all_rows(contents: &str) -> (r: Result<ScrapedCatalysts, ScrapeError>)
    requires
        parseable(contents@),
    ensures
        catalogs(
            r,
            page_entries(
                parsed_document(contents@),
                (ScrapePredicates { price_limit: None, date_limit: None }),
            ),
        ),
{
    parse_rows(contents, ScrapePredicates::new())
}

/// What reading a page and building its catalog gives: the failure to read
/// the page, carrying the reason, or what the page's text yields.
pub open spec fn read_entries(
    contents: Result<String, std::io::Error>,
    predicates: ScrapePredicates,
) -> Result<Seq<Entry>, ScrapeFailure> {
    match contents {
        Err(e) => Err(ScrapeFailure::FileReadError(e)),
        Ok(text) => page_entries(parsed_document(text@), predicates),
    }
}

/// Builds the catalog of a page from what reading the page gave: where the
/// page could not be read, the failure that carries the reason; where it
/// could, the catalog of its text under the given ceilings. A text must be
/// short enough for the parser.
pub fn parse_rows_read(contents: Result<String, std::io::Error>, predicates: ScrapePredicates) -> (r:
    Result<ScrapedCatalysts, ScrapeError>)
    requires
        contents matches Ok(text) ==> parseable(text@),
    ensures
        catalogs(r, read_entries(contents, predicates)),
{
    match contents {
        Err(e) => Err(ScrapeError::FileReadError(e)),
        Ok(text) => parse_rows(text.as_str(), predicates),
    }
}

} // verus!
