//! The parsed page and its elements, as the HTML library hands them out,
//! and the lookup of one field under a row.

use super::error::ScrapeError;
use super::error::ScrapeFailure;
use crate::text::trim;
use crate::text::trimmed;
use scraper::ElementRef;
use scraper::Html;
use scraper::Selector;
use vstd::prelude::*;
use vstd::utf8::encode_utf8;

verus! {

/// `scraper::Html`, a parsed page. Nothing inside it is visible here.
#[verifier::external_type_specification]
#[verifier::external_body]
pub struct ExHtml(scraper::Html);

/// `scraper::Selector`, a compiled CSS selector. Nothing inside it is
/// visible here.
#[verifier::external_type_specification]
#[verifier::external_body]
pub struct ExSelector(scraper::Selector);

/// `scraper::ElementRef`, one element of a parsed page. Nothing inside it
/// is visible here.
#[verifier::external_type_specification]
#[verifier::external_body]
pub struct ExElementRef<'a>(scraper::ElementRef<'a>);

/// The longest page text, in bytes of UTF-8, that is handed to the parser:
/// a third of 2^31, rounded down.
pub const MAX_PAGE_BYTES: usize = 0x2AAA_AAAA;

/// Whether a text is short enough for the parser.
///
/// The parser keeps what it reads in buffers that panic when they grow
/// beyond 2^31 bytes, and one byte of the text can take up to three bytes in
/// such a buffer. So the text may be a third of that long.
pub open spec fn parseable(text: Seq<char>) -> bool {
    encode_utf8(text).len() <= MAX_PAGE_BYTES
}

/// Whether a text is short enough for the parser.
pub fn is_parseable(text: &str) -> (fits: bool)
    ensures
        fits == parseable(text@),
{
    text.as_bytes().len() <= MAX_PAGE_BYTES
}

/// The document that `scraper::Html::parse_document` builds from a text.
pub uninterp spec fn parsed_document(text: Seq<char>) -> Html;

/// What `scraper::Selector::parse` makes of a selector text: the compiled
/// selector, or nothing where it refuses the text.
pub uninterp spec fn compiled_selector(css: Seq<char>) -> Option<Selector>;

/// The elements that `scraper::Html::select` yields for a selector, in the
/// order in which it yields them.
pub uninterp spec fn document_matches(document: &Html, selector: Selector) -> Seq<ElementRef>;

/// The first element that `scraper::ElementRef::select` yields below `scope`.
pub uninterp spec fn first_match(scope: ElementRef, selector: Selector) -> Option<ElementRef>;

/// The first item of `scraper::ElementRef::text`: the content of the first
/// text node below the element, untrimmed.
pub uninterp spec fn first_text(element: ElementRef) -> Option<Seq<char>>;

/// The value that `scraper::node::Element::attr` finds for an attribute name.
pub uninterp spec fn attribute_value(element: ElementRef, name: Seq<char>) -> Option<Seq<char>>;

/// Calls `scraper::Html::parse_document`. It never refuses a text, but it
/// holds the text and every piece of it in `tendril` buffers, which panic
/// beyond their limit of length; `requires` keeps the text short enough for
/// none of them to reach it. The contract gives the result its name.
#[verifier::external_body]
pub(crate) fn parse_document(text: &str) -> (document: Html)
    requires
        parseable(text@),
    ensures
        document == parsed_document(text@),
{
    Html::parse_document(text)
}

/// Calls `scraper::Selector::parse` and drops the detail of a refusal. The
/// contract gives the result its name.
#[verifier::external_body]
fn compile_selector(css: &str) -> (r: Option<Selector>)
    ensures
        r == compiled_selector(css@),
{
    Selector::parse(css).ok()
}

/// Calls `Clone::clone` of `scraper::Selector`. The contract claims that the
/// copy is the same selector.
#[verifier::external_body]
fn clone_selector(selector: &Selector) -> (copy: Selector)
    ensures
        copy == *selector,
{
    selector.clone()
}

/// Collects what `scraper::Html::select` yields. The contract gives the
/// elements, in that order, their name.
#[verifier::external_body]
pub(crate) fn select_all<'a>(document: &'a Html, selector: &Selector) -> (rows: Vec<
    ElementRef<'a>,
>)
    ensures
        rows@ == document_matches(document, *selector),
{
    document.select(selector).collect()
}

/// Takes the first item of `scraper::ElementRef::select`. The contract gives
/// the result its name.
#[verifier::external_body]
fn select_first<'a>(scope: &ElementRef<'a>, selector: &Selector) -> (r: Option<ElementRef<'a>>)
    ensures
        r == first_match(*scope, *selector),
{
    scope.select(selector).next()
}

/// Takes the first item of `scraper::ElementRef::text`. The contract gives
/// its characters their name.
#[verifier::external_body]
fn text_of<'a>(element: &ElementRef<'a>) -> (r: Option<&'a str>)
    ensures
        match r {
            Some(text) => first_text(*element) == Some(text@),
            None => first_text(*element) is None,
        },
{
    element.text().next()
}

/// Calls `scraper::node::Element::attr` on the element's node. The contract
/// gives the characters of the value their name.
#[verifier::external_body]
fn attribute_of<'a>(element: &ElementRef<'a>, name: &str) -> (r: Option<&'a str>)
    ensures
        match r {
            Some(value) => attribute_value(*element, name@) == Some(value@),
            None => attribute_value(*element, name@) is None,
        },
{
    element.value().attr(name)
}

/// What compiling a selector text gives: the selector, or the failure that
/// carries the text.
pub open spec fn selector_for(css: Seq<char>) -> Result<Selector, ScrapeFailure> {
    match compiled_selector(css) {
        Some(selector) => Ok(selector),
        None => Err(ScrapeFailure::InvalidSelector(css)),
    }
}

/// The first element below `scope` that the selector matches, or the failure
/// that carries the selector.
pub open spec fn element_under(scope: ElementRef, selector: Selector) -> Result<
    ElementRef,
    ScrapeFailure,
> {
    match first_match(scope, selector) {
        Some(element) => Ok(element),
        None => Err(ScrapeFailure::ExpectedFieldNotFound(selector)),
    }
}

/// The trimmed first text below `element`, or the failure that carries the
/// selector by which the element was found.
pub open spec fn text_in(element: ElementRef, selector: Selector) -> Result<
    Seq<char>,
    ScrapeFailure,
> {
    match first_text(element) {
        Some(text) => Ok(trimmed(text)),
        None => Err(ScrapeFailure::ExpectedFieldNotFound(selector)),
    }
}

/// The value of an attribute of `element`, as it stands, or the failure that
/// carries the selector by which the element was found.
pub open spec fn attr_in(element: ElementRef, name: Seq<char>, selector: Selector) -> Result<
    Seq<char>,
    ScrapeFailure,
> {
    match attribute_value(element, name) {
        Some(value) => Ok(value),
        None => Err(ScrapeFailure::ExpectedFieldNotFound(selector)),
    }
}

/// The trimmed first text of the first element below `scope` that the
/// selector matches.
pub open spec fn text_under(scope: ElementRef, selector: Selector) -> Result<
    Seq<char>,
    ScrapeFailure,
> {
    match element_under(scope, selector) {
        Ok(element) => text_in(element, selector),
        Err(failure) => Err(failure),
    }
}

/// An element or a failure, as contracts see it.
pub open spec fn element_outcome(r: Result<ElementRef, ScrapeError>) -> Result<
    ElementRef,
    ScrapeFailure,
> {
    match r {
        Ok(element) => Ok(element),
        Err(e) => Err(e@),
    }
}

/// A text or a failure, as contracts see it.
pub open spec fn text_outcome(r: Result<&str, ScrapeError>) -> Result<Seq<char>, ScrapeFailure> {
    match r {
        Ok(text) => Ok(text@),
        Err(e) => Err(e@),
    }
}

/// Compiles a selector text.
pub fn build_selector_for(css_selector: &str) -> (r: Result<Selector, ScrapeError>)
    ensures
        match r {
            Ok(selector) => selector_for(css_selector@) == Ok::<Selector, ScrapeFailure>(selector),
            Err(e) => selector_for(css_selector@) == Err::<Selector, ScrapeFailure>(e@),
        },
{
    match compile_selector(css_selector) {
        Some(selector) => Ok(selector),
        None => Err(ScrapeError::InvalidSelector(css_selector.to_owned())),
    }
}

/// Finds the first element below `an_element_ref` that the selector matches.
pub fn select_first_element_from<'a>(an_element_ref: &ElementRef<'a>, selector: &Selector) -> (r:
    Result<ElementRef<'a>, ScrapeError>)
    ensures
        element_outcome(r) == element_under(*an_element_ref, *selector),
{
    match select_first(an_element_ref, selector) {
        Some(element) => Ok(element),
        None => Err(ScrapeError::ExpectedFieldNotFound(clone_selector(selector))),
    }
}

/// Finds the first element below `an_element_ref` that the selector matches,
/// and gives its first text, trimmed.
pub fn select_first_text_from<'a>(an_element_ref: &ElementRef<'a>, selector: &Selector) -> (r:
    Result<&'a str, ScrapeError>)
    ensures
        text_outcome(r) == text_under(*an_element_ref, *selector),
{
    match select_first_element_from(an_element_ref, selector) {
        Ok(element) => retrieve_text_from(&element, selector),
        Err(e) => Err(e),
    }
}

/// Gives the first text below the element, trimmed. `underlying_selector` is
/// the selector by which the element was found; a failure carries it.
pub fn retrieve_text_from<'a>(an_element_ref: &ElementRef<'a>, underlying_selector: &Selector) -> (r:
    Result<&'a str, ScrapeError>)
    ensures
        text_outcome(r) == text_in(*an_element_ref, *underlying_selector),
{
    match text_of(an_element_ref) {
        Some(text) => Ok(trim(text)),
        None => Err(ScrapeError::ExpectedFieldNotFound(clone_selector(underlying_selector))),
    }
}

/// Gives the value of an attribute of the element, as it stands.
/// `underlying_selector` is the selector by which the element was found; a
/// failure carries it.
pub fn retrieve_attr_from<'a>(
    an_element_ref: &ElementRef<'a>,
    attr: &str,
    underlying_selector: &Selector,
) -> (r: Result<&'a str, ScrapeError>)
    ensures
        text_outcome(r) == attr_in(*an_element_ref, attr@, *underlying_selector),
{
    match attribute_of(an_element_ref, attr) {
        Some(value) => Ok(value),
        None => Err(ScrapeError::ExpectedFieldNotFound(clone_selector(underlying_selector))),
    }
}

} // verus!
