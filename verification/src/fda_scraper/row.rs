//! One row of the page: the record it yields and the selectors that find
//! its fields.

use super::date::cell_date;
use super::date::CatalystDate;
use super::dom::attr_in;
use super::dom::build_selector_for;
use super::dom::compiled_selector;
use super::dom::element_under;
use super::dom::retrieve_attr_from;
use super::dom::retrieve_text_from;
use super::dom::select_first_element_from;
use super::dom::select_first_text_from;
use super::dom::text_in;
use super::dom::text_under;
use super::error::ScrapeError;
use super::error::ScrapeFailure;
use super::predicates::ScrapePredicates;
use crate::currency::grammar::parse_money;
use crate::currency::USD;
use scraper::ElementRef;
use scraper::Selector;
use vstd::prelude::*;

verus! {

/// One catalyst event, as one row of the page gives it.
#[derive(Debug, PartialEq, Eq)]
pub struct ParsedRow {
    pub price: USD,
    pub url: String,
    pub symbol: String,
    pub catalyst_date: CatalystDate,
    pub drug_name: String,
    pub drug_indication: String,
    pub catalyst_note: String,
    pub phase: String,
}

/// A record as contracts see it: texts by their characters.
pub struct Record {
    pub price: USD,
    pub url: Seq<char>,
    pub symbol: Seq<char>,
    pub catalyst_date: CatalystDate,
    pub drug_name: Seq<char>,
    pub drug_indication: Seq<char>,
    pub catalyst_note: Seq<char>,
    pub phase: Seq<char>,
}

impl View for ParsedRow {
    type V = Record;

    open spec fn view(&self) -> Record {
        Record {
            price: self.price,
            url: self.url@,
            symbol: self.symbol@,
            catalyst_date: self.catalyst_date,
            drug_name: self.drug_name@,
            drug_indication: self.drug_indication@,
            catalyst_note: self.catalyst_note@,
            phase: self.phase@,
        }
    }
}

/// The key by which records are grouped: the machine-readable stage of the
/// row, as opposed to the stage text that is shown.
#[derive(Debug, PartialEq, Eq)]
pub struct PhaseLabel(pub String);

impl View for PhaseLabel {
    type V = Seq<char>;

    open spec fn view(&self) -> Seq<char> {
        self.0@
    }
}

impl PhaseLabel {
    /// The label's text.
    pub fn to_string(&self) -> (text: String)
        ensures
            text@ == self@,
    {
        self.0.clone()
    }
}

/// A record with the label under which it is grouped.
pub struct Entry {
    pub label: Seq<char>,
    pub record: Record,
}

/// The rows of the event table.
pub const ROW_SELECTOR: &'static str = "tr.js-tr.js-drug";

/// The price cell of a row.
pub const PRICE_SELECTOR: &'static str = "div[class=price]";

/// The anchor of a row: its target is the URL, its text the ticker symbol.
pub const SYMBOL_AND_URL_SELECTOR: &'static str = "td a[href]";

/// The date cell of a row.
pub const CATALYST_DATE_SELECTOR: &'static str = "time[class=catalyst-date]";

/// The drug name of a row.
pub const DRUG_NAME_SELECTOR: &'static str = "strong[class=drug]";

/// The indication of a row.
pub const DRUG_INDICATION_SELECTOR: &'static str = "div[class=indication]";

/// The free-text note of a row.
pub const CATALYST_NOTE_SELECTOR: &'static str = "div[class=catalyst-note]";

/// The stage cell of a row: an attribute holds the grouping label, the text
/// is the stage as shown.
pub const PHASE_SELECTOR: &'static str = "td.js-td--stage[data-value]";

/// The attribute of the anchor that holds the URL.
pub const URL_ATTRIBUTE: &'static str = "href";

/// The attribute of the stage cell that holds the grouping label.
pub const PHASE_ATTRIBUTE: &'static str = "data-value";

/// The compiled selectors of the page's fixed structure.
pub struct RowSelectors {
    pub event_table_row: Selector,
    pub price: Selector,
    pub symbol_and_url: Selector,
    pub catalyst_date: Selector,
    pub drug_name: Selector,
    pub drug_indication: Selector,
    pub catalyst_note: Selector,
    pub phase: Selector,
}

/// The first of the fixed selector texts that does not compile, in the
/// order of the fields of `RowSelectors`, if there is one.
pub open spec fn first_refused() -> Option<Seq<char>> {
    if compiled_selector(ROW_SELECTOR@) is None {
        Some(ROW_SELECTOR@)
    } else if compiled_selector(PRICE_SELECTOR@) is None {
        Some(PRICE_SELECTOR@)
    } else if compiled_selector(SYMBOL_AND_URL_SELECTOR@) is None {
        Some(SYMBOL_AND_URL_SELECTOR@)
    } else if compiled_selector(CATALYST_DATE_SELECTOR@) is None {
        Some(CATALYST_DATE_SELECTOR@)
    } else if compiled_selector(DRUG_NAME_SELECTOR@) is None {
        Some(DRUG_NAME_SELECTOR@)
    } else if compiled_selector(DRUG_INDICATION_SELECTOR@) is None {
        Some(DRUG_INDICATION_SELECTOR@)
    } else if compiled_selector(CATALYST_NOTE_SELECTOR@) is None {
        Some(CATALYST_NOTE_SELECTOR@)
    } else if compiled_selector(PHASE_SELECTOR@) is None {
        Some(PHASE_SELECTOR@)
    } else {
        None
    }
}

/// The fixed set of selectors, compiled, or the failure of the first text
/// that does not compile.
pub open spec fn fixed_selectors() -> Result<RowSelectors, ScrapeFailure> {
    match first_refused() {
        Some(css) => Err(ScrapeFailure::InvalidSelector(css)),
        None => Ok(
            RowSelectors {
                event_table_row: compiled_selector(ROW_SELECTOR@)->0,
                price: compiled_selector(PRICE_SELECTOR@)->0,
                symbol_and_url: compiled_selector(SYMBOL_AND_URL_SELECTOR@)->0,
                catalyst_date: compiled_selector(CATALYST_DATE_SELECTOR@)->0,
                drug_name: compiled_selector(DRUG_NAME_SELECTOR@)->0,
                drug_indication: compiled_selector(DRUG_INDICATION_SELECTOR@)->0,
                catalyst_note: compiled_selector(CATALYST_NOTE_SELECTOR@)->0,
                phase: compiled_selector(PHASE_SELECTOR@)->0,
            },
        ),
    }
}

impl RowSelectors {
    /// Compiles the fixed set of selectors.
    pub fn compile() -> (r: Result<RowSelectors, ScrapeError>)
        ensures
            match r {
                Ok(selectors) => fixed_selectors() == Ok::<RowSelectors, ScrapeFailure>(selectors),
                Err(e) => fixed_selectors() == Err::<RowSelectors, ScrapeFailure>(e@),
            },
    {
        let event_table_row = build_selector_for(ROW_SELECTOR)?;
        let price = build_selector_for(PRICE_SELECTOR)?;
        let symbol_and_url = build_selector_for(SYMBOL_AND_URL_SELECTOR)?;
        let catalyst_date = build_selector_for(CATALYST_DATE_SELECTOR)?;
        let drug_name = build_selector_for(DRUG_NAME_SELECTOR)?;
        let drug_indication = build_selector_for(DRUG_INDICATION_SELECTOR)?;
        let catalyst_note = build_selector_for(CATALYST_NOTE_SELECTOR)?;
        let phase = build_selector_for(PHASE_SELECTOR)?;
        Ok(
            RowSelectors {
                event_table_row,
                price,
                symbol_and_url,
                catalyst_date,
                drug_name,
                drug_indication,
                catalyst_note,
                phase,
            },
        )
    }
}

/// What one row yields once its price and date have passed the ceilings:
/// the six remaining fields, read in their fixed order, or the failure of
/// the first of them that is missing. The anchor gives the URL and the
/// symbol, the stage cell gives the label and the stage as shown.
pub open spec fn remaining_fields(
    row: ElementRef,
    selectors: RowSelectors,
    price: USD,
    catalyst_date: CatalystDate,
) -> Result<Entry, ScrapeFailure> {
    let anchor = element_under(row, selectors.symbol_and_url);
    let url = attr_in(anchor->Ok_0, URL_ATTRIBUTE@, selectors.symbol_and_url);
    let symbol = text_in(anchor->Ok_0, selectors.symbol_and_url);
    let drug_name = text_under(row, selectors.drug_name);
    let drug_indication = text_under(row, selectors.drug_indication);
    let catalyst_note = text_under(row, selectors.catalyst_note);
    let stage = element_under(row, selectors.phase);
    let label = attr_in(stage->Ok_0, PHASE_ATTRIBUTE@, selectors.phase);
    let phase = text_in(stage->Ok_0, selectors.phase);
    if anchor is Err {
        Err(anchor->Err_0)
    } else if url is Err {
        Err(url->Err_0)
    } else if symbol is Err {
        Err(symbol->Err_0)
    } else if drug_name is Err {
        Err(drug_name->Err_0)
    } else if drug_indication is Err {
        Err(drug_indication->Err_0)
    } else if catalyst_note is Err {
        Err(catalyst_note->Err_0)
    } else if stage is Err {
        Err(stage->Err_0)
    } else if label is Err {
        Err(label->Err_0)
    } else if phase is Err {
        Err(phase->Err_0)
    } else {
        Ok(
            Entry {
                label: label->Ok_0,
                record: Record {
                    price,
                    url: url->Ok_0,
                    symbol: symbol->Ok_0,
                    catalyst_date,
                    drug_name: drug_name->Ok_0,
                    drug_indication: drug_indication->Ok_0,
                    catalyst_note: catalyst_note->Ok_0,
                    phase: phase->Ok_0,
                },
            },
        )
    }
}

/// What one row yields: a failure, nothing where a ceiling drops the row, or
/// the record with its label.
///
/// The price is read and parsed first, then the date; then the ceilings are
/// applied; only a row that passes has its remaining fields read. So a row
/// that is dropped never fails for a field it lacks.
pub open spec fn row_outcome(
    row: ElementRef,
    selectors: RowSelectors,
    predicates: ScrapePredicates,
) -> Result<Option<Entry>, ScrapeFailure> {
    let price_text = text_under(row, selectors.price);
    let price = parse_money(price_text->Ok_0);
    let date_text = text_under(row, selectors.catalyst_date);
    let catalyst_date = cell_date(date_text->Ok_0);
    if price_text is Err {
        Err(price_text->Err_0)
    } else if price is Err {
        Err(ScrapeFailure::CurrencyParseError(price->Err_0, price_text->Ok_0))
    } else if date_text is Err {
        Err(date_text->Err_0)
    } else if catalyst_date is Err {
        Err(ScrapeFailure::DateParseFailure(catalyst_date->Err_0))
    } else if !predicates.accepts(price->Ok_0, catalyst_date->Ok_0) {
        Ok(None)
    } else {
        match remaining_fields(row, selectors, price->Ok_0, catalyst_date->Ok_0) {
            Err(failure) => Err(failure),
            Ok(entry) => Ok(Some(entry)),
        }
    }
}

/// What `assemble_row` returns, as contracts see it.
pub open spec fn assembled(r: Result<Option<(PhaseLabel, ParsedRow)>, ScrapeError>) -> Result<
    Option<Entry>,
    ScrapeFailure,
> {
    match r {
        Ok(Some((label, row))) => Ok(Some(Entry { label: label@, record: row@ })),
        Ok(None) => Ok(None),
        Err(e) => Err(e@),
    }
}

/// Builds the record of one row, with the label under which it is grouped.
///
/// Returns `Ok(None)` for a row that a ceiling drops, and the failure of the
/// first field that is missing or malformed otherwise.
pub fn assemble_row<'a>(
    row: &ElementRef<'a>,
    selectors: &RowSelectors,
    predicates: &ScrapePredicates,
) -> (r: Result<Option<(PhaseLabel, ParsedRow)>, ScrapeError>)
    ensures
        assembled(r) == row_outcome(*row, *selectors, *predicates),
{
    let price_text = select_first_text_from(row, &selectors.price)?;
    let price = match USD::new(price_text) {
        Ok(price) => price,
        Err(e) => {
            return Err(ScrapeError::from(e));
        },
    };
    let date_text = select_first_text_from(row, &selectors.catalyst_date)?;
    let catalyst_date = match CatalystDate::from_cell(date_text) {
        Ok(date) => date,
        Err(e) => {
            return Err(ScrapeError::from(e));
        },
    };
    if !predicates.test_price(&price) || !predicates.test_date(&catalyst_date) {
        return Ok(None);
    }
    let url_symbol_ref = select_first_element_from(row, &selectors.symbol_and_url)?;
    let url = retrieve_attr_from(&url_symbol_ref, URL_ATTRIBUTE, &selectors.symbol_and_url)?.to_owned();
    let symbol = retrieve_text_from(&url_symbol_ref, &selectors.symbol_and_url)?.to_owned();
    let drug_name = select_first_text_from(row, &selectors.drug_name)?.to_owned();
    let drug_indication = select_first_text_from(row, &selectors.drug_indication)?.to_owned();
    let catalyst_note = select_first_text_from(row, &selectors.catalyst_note)?.to_owned();
    let phase_element = select_first_element_from(row, &selectors.phase)?;
    let phase_grouping = PhaseLabel(
        retrieve_attr_from(&phase_element, PHASE_ATTRIBUTE, &selectors.phase)?.to_owned(),
    );
    let phase = retrieve_text_from(&phase_element, &selectors.phase)?.to_owned();
    let to_insert = ParsedRow {
        price,
        url,
        symbol,
        catalyst_date,
        drug_name,
        drug_indication,
        catalyst_note,
        phase,
    };
    Ok(Some((phase_grouping, to_insert)))
}

} // verus!
