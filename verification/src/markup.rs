//! What this library takes on trust from the `scraper` crate.
//!
//! Parsing markup and matching CSS selectors is `scraper`'s work. Nothing in
//! here says what a parse or a match yields: each result only gets a name, so
//! that the functions built on top can say exactly how their own results are
//! made of it. To give a result a name is to rely on the call being a function
//! of its arguments, which holds of all six calls below.

use vstd::prelude::*;
use scraper::{ElementRef, Html, Selector};

verus! {

/// `scraper::Html`, a parsed document. Nothing of its inside is visible here.
#[verifier::external_type_specification]
#[verifier::external_body]
pub struct ExHtml(scraper::Html);

/// `scraper::Selector`, a compiled group of CSS selectors.
#[verifier::external_type_specification]
#[verifier::external_body]
pub struct ExSelector(scraper::Selector);

/// `scraper::ElementRef`, a reference to one element of a parsed document.
/// It is taken here for the place in the document that it points to: nothing
/// in this library compares two references or looks at an address.
#[verifier::external_type_specification]
#[verifier::external_body]
pub struct ExElementRef<'a>(scraper::ElementRef<'a>);

/// The document that `Html::parse_document` builds from `body`.
pub uninterp spec fn parsed_document(body: Seq<char>) -> Html;

/// What `Selector::parse` makes of `css`: the selector, or `None` where `css`
/// is no selector group.
pub uninterp spec fn compiled_selector(css: Seq<char>) -> Option<Selector>;

/// The elements of `document` that match `selector`, in the order in which
/// `Html::select` yields them.
pub uninterp spec fn document_matches(document: &Html, selector: Selector) -> Seq<ElementRef>;

/// The first element below `scope` that matches `selector`, as
/// `ElementRef::select` finds it.
pub uninterp spec fn first_match(scope: ElementRef, selector: Selector) -> Option<ElementRef>;

/// The text nodes below `element`, joined in the order of `ElementRef::text`.
pub uninterp spec fn element_text(element: ElementRef) -> Seq<char>;

/// The value that `Element::attr` finds for the attribute `name` of `element`.
pub uninterp spec fn element_attr(element: ElementRef, name: Seq<char>) -> Option<Seq<char>>;

/// Parses `body` as an HTML document.
///
/// Trusted: `Html::parse_document` returns for every string, and what it
/// returns depends on the string alone.
#[verifier::external_body]
pub(crate) fn parse_document(body: &str) -> (document: Html)
    ensures
        document == parsed_document(body@),
{
    Html::parse_document(body)
}

/// Compiles the selector group `css`.
///
/// Trusted: `Selector::parse` returns `Ok` or `Err` by `css` alone; the error
/// is dropped here.
#[verifier::external_body]
pub(crate) fn compile_selector(css: &str) -> (selector: Option<Selector>)
    ensures
        selector == compiled_selector(css@),
{
    match Selector::parse(css) {
        Ok(compiled) => Some(compiled),
        Err(_) => None,
    }
}

/// All elements of `document` that match `selector`.
///
/// Trusted: the iterator of `Html::select` ends, and yields the same elements
/// in the same order whenever it walks the same document with the same
/// selector.
#[verifier::external_body]
pub(crate) fn select_in_document<'a>(document: &'a Html, selector: &Selector) -> (found: Vec<
    ElementRef<'a>,
>)
    ensures
        found@ == document_matches(document, *selector),
{
    document.select(selector).collect()
}

/// The first element below `scope` that matches `selector`, if there is one.
///
/// Trusted: the first item of the iterator of `ElementRef::select` depends on
/// the element and the selector alone.
#[verifier::external_body]
pub(crate) fn select_first<'a>(scope: &ElementRef<'a>, selector: &Selector) -> (found: Option<
    ElementRef<'a>,
>)
    ensures
        found == first_match(*scope, *selector),
{
    scope.select(selector).next()
}

/// The text below `element`.
///
/// Trusted: `ElementRef::text` yields the text nodes below the element, and
/// collecting them gives one string that depends on the element alone.
#[verifier::external_body]
pub(crate) fn text_of(element: &ElementRef) -> (text: String)
    ensures
        text@ == element_text(*element),
{
    element.text().collect()
}

/// The value of the attribute `name` of `element`, if it has that attribute.
///
/// Trusted: `Element::attr` looks the name up among the element's attributes
/// and returns without panicking for every name.
#[verifier::external_body]
pub(crate) fn attribute_of(element: &ElementRef, name: &str) -> (value: Option<String>)
    ensures
        value.deep_view() == element_attr(*element, name@),
{
    element.value().attr(name).map(String::from)
}

} // verus!
