//! Calendar dates of catalyst events, and the parsing of the page's date cells.

use chrono::format::ParseError;
use chrono::Datelike;
use chrono::NaiveDate;
use core::cmp::Ordering;
use vstd::prelude::*;

verus! {

/// A calendar date without a time of day.
#[derive(Debug, Clone, Copy, PartialEq, Eq, Structural)]
pub struct CatalystDate {
    pub year: i32,
    pub month: u32,
    pub day: u32,
}

/// Whether `a` is an earlier day than `b`: by year, then month, then day.
pub open spec fn date_lt(a: CatalystDate, b: CatalystDate) -> bool {
    if a.year != b.year {
        a.year < b.year
    } else if a.month != b.month {
        a.month < b.month
    } else {
        a.day < b.day
    }
}

impl PartialOrd for CatalystDate {
    fn partial_cmp(&self, other: &CatalystDate) -> (r: Option<Ordering>) {
        if self.year != other.year {
            if self.year < other.year {
                Some(Ordering::Less)
            } else {
                Some(Ordering::Greater)
            }
        } else if self.month != other.month {
            if self.month < other.month {
                Some(Ordering::Less)
            } else {
                Some(Ordering::Greater)
            }
        } else if self.day != other.day {
            if self.day < other.day {
                Some(Ordering::Less)
            } else {
                Some(Ordering::Greater)
            }
        } else {
            Some(Ordering::Equal)
        }
    }
}

impl vstd::std_specs::cmp::PartialOrdSpecImpl for CatalystDate {
    open spec fn obeys_partial_cmp_spec() -> bool {
        true
    }

    open spec fn partial_cmp_spec(&self, other: &CatalystDate) -> Option<Ordering> {
        if date_lt(*self, *other) {
            Some(Ordering::Less)
        } else if *self == *other {
            Some(Ordering::Equal)
        } else {
            Some(Ordering::Greater)
        }
    }
}

/// The order of dates is total and strict.
pub proof fn lemma_date_order(a: CatalystDate, b: CatalystDate, c: CatalystDate)
    ensures
        date_lt(a, b) || a == b || date_lt(b, a),
        !(date_lt(a, b) && a == b),
        !(date_lt(a, b) && date_lt(b, a)),
        date_lt(a, b) && date_lt(b, c) ==> date_lt(a, c),
{
}

/// `chrono::format::ParseError`, the reason chrono gives for refusing a
/// date text. Nothing inside it is visible here.
#[verifier::external_type_specification]
#[verifier::external_body]
pub struct ExParseError(chrono::format::ParseError);

/// What `chrono::NaiveDate::parse_from_str` makes of `text` under the format
/// string `format`: the year, month and day of the date, or chrono's error.
pub uninterp spec fn chrono_date(text: Seq<char>, format: Seq<char>) -> Result<
    (i32, u32, u32),
    ParseError,
>;

/// Calls `chrono::NaiveDate::parse_from_str`. The contract claims only that
/// the outcome is the one named `chrono_date` for the same text and format,
/// a date being given by the year, month and day that chrono reports for it.
#[verifier::external_body]
fn parse_date_with(text: &str, format: &str) -> (r: Result<CatalystDate, ParseError>)
    ensures
        match r {
            Ok(date) => chrono_date(text@, format@) == Ok::<(i32, u32, u32), ParseError>(
                (date.year, date.month, date.day),
            ),
            Err(e) => chrono_date(text@, format@) == Err::<(i32, u32, u32), ParseError>(e),
        },
{
    match NaiveDate::parse_from_str(text, format) {
        Ok(date) => Ok(CatalystDate { year: date.year(), month: date.month(), day: date.day() }),
        Err(e) => Err(e),
    }
}

/// The format of the page's date cells: month, day and four-digit year,
/// separated by `/`.
pub const DATE_FORMAT: &'static str = "%m/%d/%Y";

/// What a date cell's text denotes under the page's date format.
pub open spec fn cell_date(text: Seq<char>) -> Result<CatalystDate, ParseError> {
    match chrono_date(text, DATE_FORMAT@) {
        Ok((year, month, day)) => Ok(CatalystDate { year, month, day }),
        Err(e) => Err(e),
    }
}

impl CatalystDate {
    /// Reads a date cell, `MM/DD/YYYY`.
    pub fn from_cell(text: &str) -> (r: Result<CatalystDate, ParseError>)
        ensures
            r == cell_date(text@),
    {
        parse_date_with(text, DATE_FORMAT)
    }
}

} // verus!
