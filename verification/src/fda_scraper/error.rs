//! The ways in which reading a page can fail.

use crate::currency::money::describe_fault;
use crate::currency::MoneyFault;
use crate::currency::USDParseError;
use chrono::format::ParseError;
use scraper::Selector;
use vstd::prelude::*;

verus! {

/// `std::io::Error`, carried for the caller that could not read the page.
/// Nothing inside it is visible here.
#[verifier::external_type_specification]
#[verifier::external_body]
pub struct ExIoError(std::io::Error);

/// A failure of the page reader. Each is fatal to the whole page.
#[derive(Debug)]
pub enum ScrapeError {
    /// A selector text that does not compile; carries the text.
    InvalidSelector(String),
    /// A selector that matched nothing in a row, or matched an element that
    /// lacks the text or attribute asked for; carries the selector.
    ExpectedFieldNotFound(Selector),
    /// A date cell that is not a date in the page's format.
    DateParseFailure(ParseError),
    /// The page itself could not be read.
    FileReadError(std::io::Error),
    /// A price cell that is not a dollar amount.
    CurrencyParseError(USDParseError),
}

/// A failure as contracts see it: texts by their characters.
pub enum ScrapeFailure {
    InvalidSelector(Seq<char>),
    ExpectedFieldNotFound(Selector),
    DateParseFailure(ParseError),
    FileReadError(std::io::Error),
    CurrencyParseError(MoneyFault, Seq<char>),
}

impl View for ScrapeError {
    type V = ScrapeFailure;

    open spec fn view(&self) -> ScrapeFailure {
        match self {
            ScrapeError::InvalidSelector(css) => ScrapeFailure::InvalidSelector(css@),
            ScrapeError::ExpectedFieldNotFound(selector) => ScrapeFailure::ExpectedFieldNotFound(
                *selector,
            ),
            ScrapeError::DateParseFailure(e) => ScrapeFailure::DateParseFailure(*e),
            ScrapeError::FileReadError(e) => ScrapeFailure::FileReadError(*e),
            ScrapeError::CurrencyParseError(e) => ScrapeFailure::CurrencyParseError(
                e.fault(),
                e.input(),
            ),
        }
    }
}

impl From<USDParseError> for ScrapeError {
    fn from(e: USDParseError) -> (r: ScrapeError) {
        ScrapeError::CurrencyParseError(e)
    }
}

impl vstd::std_specs::convert::FromSpecImpl<USDParseError> for ScrapeError {
    open spec fn obeys_from_spec() -> bool {
        true
    }

    open spec fn from_spec(e: USDParseError) -> ScrapeError {
        ScrapeError::CurrencyParseError(e)
    }
}

impl From<ParseError> for ScrapeError {
    fn from(e: ParseError) -> (r: ScrapeError) {
        ScrapeError::DateParseFailure(e)
    }
}

impl vstd::std_specs::convert::FromSpecImpl<ParseError> for ScrapeError {
    open spec fn obeys_from_spec() -> bool {
        true
    }

    open spec fn from_spec(e: ParseError) -> ScrapeError {
        ScrapeError::DateParseFailure(e)
    }
}

/// What `{:?}` prints for a text: std's `Debug` for `str`, the text in
/// double quotes with its escapes.
pub uninterp spec fn debug_of_text(text: Seq<char>) -> Seq<char>;

/// What `{:?}` prints for a selector: the `Debug` that `scraper` derives for
/// `Selector`.
pub uninterp spec fn debug_of_selector(selector: Selector) -> Seq<char>;

/// What `{}` prints for a date error: chrono's `Display` for `ParseError`.
pub uninterp spec fn display_of_date_error(e: ParseError) -> Seq<char>;

/// Formats a text with std's `Debug`. The contract gives the result its name.
#[verifier::external_body]
fn format_text_debug(text: &str) -> (shown: String)
    ensures
        shown@ == debug_of_text(text@),
{
    format!("{:?}", text)
}

/// Formats a selector with its `Debug`. The contract gives the result its name.
#[verifier::external_body]
fn format_selector_debug(selector: &Selector) -> (shown: String)
    ensures
        shown@ == debug_of_selector(*selector),
{
    format!("{:?}", selector)
}

/// Formats a date error with its `Display`. The contract gives the result
/// its name.
#[verifier::external_body]
fn format_date_error(e: &ParseError) -> (shown: String)
    ensures
        shown@ == display_of_date_error(*e),
{
    format!("{}", e)
}

/// Formats an I/O error with its `Display`. The text comes from the
/// operating system, so nothing is claimed of it.
#[verifier::external_body]
fn format_io_error(e: &std::io::Error) -> (shown: String) {
    format!("{}", e)
}

/// Whether `text` is the description of a failure. The description of a
/// failure to read the page is whatever the operating system says.
pub open spec fn describes(failure: ScrapeFailure, text: Seq<char>) -> bool {
    match failure {
        ScrapeFailure::ExpectedFieldNotFound(selector) => text == "Didn't match css selector "@
            + debug_of_selector(selector),
        ScrapeFailure::InvalidSelector(css) => text == "Malformed CSS Selector "@ + debug_of_text(
            css,
        ),
        ScrapeFailure::DateParseFailure(e) => text == display_of_date_error(e),
        ScrapeFailure::FileReadError(_) => true,
        ScrapeFailure::CurrencyParseError(fault, input) => text == describe_fault(fault) + input,
    }
}

impl ScrapeError {
    /// A one-line description of the failure.
    pub fn to_string(&self) -> (text: String)
        ensures
            describes(self@, text@),
    {
        match self {
            ScrapeError::ExpectedFieldNotFound(e) => String::from_str(
                "Didn't match css selector ",
            ).concat(format_selector_debug(e).as_str()),
            ScrapeError::InvalidSelector(e) => String::from_str("Malformed CSS Selector ").concat(
                format_text_debug(e.as_str()).as_str(),
            ),
            ScrapeError::DateParseFailure(e) => format_date_error(e),
            ScrapeError::FileReadError(e) => format_io_error(e),
            ScrapeError::CurrencyParseError(e) => e.to_string(),
        }
    }
}

} // verus!
