//! The tree of a parsed page, and the few questions that scraping asks of
//! it. The tree is `scraper`'s; what it holds is known here by name only.

use vstd::prelude::*;

verus! {

/// `scraper::Html`, the tree of a parsed page. Nothing is known here of
/// what a value holds but through the names below.
#[verifier::external_type_specification]
#[verifier::external_body]
pub struct ExHtml(scraper::Html);

/// `scraper::Selector`, a compiled selector.
#[verifier::external_type_specification]
#[verifier::external_body]
pub struct ExSelector(scraper::Selector);

/// `scraper::ElementRef`, an element of a tree.
#[verifier::external_type_specification]
#[verifier::external_body]
pub struct ExElementRef<'a>(scraper::ElementRef<'a>);

/// `scraper::error::SelectorErrorKind`, why a selector does not compile.
#[verifier::external_type_specification]
#[verifier::external_body]
pub struct ExSelectorErrorKind(scraper::error::SelectorErrorKind);

/// The tree that `scraper::Html::parse_document` builds from a text.
pub uninterp spec fn parsed_document(text: Seq<char>) -> scraper::Html;

/// The selector that `scraper::Selector::parse` compiles from a text, or
/// nothing where it reports an error.
pub uninterp spec fn parsed_selector(text: Seq<char>) -> Option<scraper::Selector>;

/// The elements of a tree that match a selector, in document order.
pub uninterp spec fn document_matches(
    document: scraper::Html,
    selector: scraper::Selector,
) -> Seq<scraper::ElementRef<'static>>;

/// The descendants of an element that match a selector, in document order.
pub uninterp spec fn element_matches(
    element: scraper::ElementRef<'static>,
    selector: scraper::Selector,
) -> Seq<scraper::ElementRef<'static>>;

/// The markup between an element's tags, as `scraper` serialises it.
pub uninterp spec fn element_inner_html(element: scraper::ElementRef<'static>) -> Seq<char>;

/// The value of an element's attribute, if the element has it.
pub uninterp spec fn element_attribute(
    element: scraper::ElementRef<'static>,
    name: Seq<char>,
) -> Option<Seq<char>>;

/// Calls `scraper::Html::parse_document`, which accepts every text. The
/// tree depends on the text alone.
#[verifier::external_body]
pub(crate) fn parse_document(text: &str) -> (document: scraper::Html)
    ensures
        document == parsed_document(text@),
{
    scraper::Html::parse_document(text)
}

/// Calls `scraper::Selector::parse`. Whether it compiles, and to what,
/// depends on the text alone.
#[verifier::external_body]
pub(crate) fn parse_selector(text: &str) -> (parsed: Result<
    scraper::Selector,
    scraper::error::SelectorErrorKind,
>)
    ensures
        match parsed {
            Ok(selector) => parsed_selector(text@) == Some(selector),
            Err(_) => parsed_selector(text@) is None,
        },
{
    scraper::Selector::parse(text)
}

/// Walks `scraper::Html::select` to its end and hands out every match, in
/// the order of the walk.
#[verifier::external_body]
pub(crate) fn select_in_document<'a>(
    document: &'a scraper::Html,
    selector: &scraper::Selector,
) -> (found: Vec<scraper::ElementRef<'a>>)
    ensures
        found@ == document_matches(*document, *selector),
{
    document.select(selector).collect()
}

/// Walks `scraper::ElementRef::select` to its end and hands out every
/// match among the element's descendants, in the order of the walk.
#[verifier::external_body]
pub(crate) fn select_in_element<'a>(
    element: &scraper::ElementRef<'a>,
    selector: &scraper::Selector,
) -> (found: Vec<scraper::ElementRef<'a>>)
    ensures
        found@ == element_matches(*element, *selector),
{
    element.select(selector).collect()
}

/// Calls `scraper::ElementRef::inner_html`.
#[verifier::external_body]
pub(crate) fn inner_html(element: &scraper::ElementRef<'_>) -> (markup: String)
    ensures
        markup@ == element_inner_html(*element),
{
    element.inner_html()
}

/// Calls `scraper::ElementRef::attr` and copies the value out.
#[verifier::external_body]
pub(crate) fn attribute(element: &scraper::ElementRef<'_>, name: &str) -> (value: Option<String>)
    ensures
        crate::text::opt_text(value) == element_attribute(*element, name@),
{
    element.attr(name).map(|text| text.to_owned())
}

} // verus!
