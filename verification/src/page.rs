//! Pages: HTML text, read through the `scraper` crate.

use crate::chars::{chars_of, string_of, trim, trim_bounds};
use crate::pattern::opt_view;
use vstd::prelude::*;

verus! {

/// Whether the CSS selector `selector` matches an element of the document
/// that `scraper::Html::parse_document` builds from `html`; false where
/// `selector` is not a valid selector.
pub uninterp spec fn selects(html: Seq<char>, selector: Seq<char>) -> bool;

/// The text nodes, joined, under the first element below the root of the
/// document built from `html` that `selector` matches; `None` where there is
/// no such element or `selector` is not a valid selector.
pub uninterp spec fn first_text(html: Seq<char>, selector: Seq<char>) -> Option<Seq<char>>;

/// The text nodes, joined, under the first element that `Html::select` yields
/// for `selector` on the document built from `html`, the root element
/// included and in the order in which the parser made the nodes; `None` where
/// there is no such element or `selector` is not a valid selector.
pub uninterp spec fn first_text_anywhere(html: Seq<char>, selector: Seq<char>) -> Option<
    Seq<char>,
>;

/// The value of the attribute `attr` on the first element below the root of
/// the document built from `html` that `selector` matches; `None` where there
/// is no such element, it has no such attribute, or `selector` is not a valid
/// selector.
pub uninterp spec fn first_attr(html: Seq<char>, selector: Seq<char>, attr: Seq<char>) -> Option<
    Seq<char>,
>;

/// All text nodes of the document built from `html`, joined in document order.
pub uninterp spec fn page_text(html: Seq<char>) -> Seq<char>;

/// Parses `html` with `Html::parse_document` and `selector` with
/// `Selector::parse`, and asks `Html::select` for a first element. Trusted:
/// the answer is what `selects` names, a function of the two texts alone. The
/// selector parser calls itself once for each `:not(` that stands inside
/// another, so a selector nested without bound needs stack without bound;
/// the selectors of this crate nest at most once.
#[verifier::external_body]
pub(crate) fn has_element(html: &str, selector: &str) -> (b: bool)
    ensures
        b == selects(html@, selector@),
{
    let Ok(sel) = scraper::Selector::parse(selector) else {
        return false;
    };
    scraper::Html::parse_document(html).select(&sel).next().is_some()
}

/// Parses as `has_element` does, takes the first element that
/// `ElementRef::select` gives below `Html::root_element`, and joins what
/// `ElementRef::text` yields. A document that `parse_document` built has a
/// root element, whatever the text was. Trusted: the result is what
/// `first_text` names.
#[verifier::external_body]
pub(crate) fn element_text(html: &str, selector: &str) -> (t: Option<String>)
    ensures
        opt_view(t) == first_text(html@, selector@),
{
    let sel = scraper::Selector::parse(selector).ok()?;
    let doc = scraper::Html::parse_document(html);
    let element = doc.root_element().select(&sel).next()?;
    Some(element.text().collect::<String>())
}

/// Parses as `has_element` does, takes the first element that `Html::select`
/// gives, and joins what `ElementRef::text` yields. Trusted: the result is
/// what `first_text_anywhere` names, a function of the two texts alone.
#[verifier::external_body]
pub(crate) fn document_element_text(html: &str, selector: &str) -> (t: Option<String>)
    ensures
        opt_view(t) == first_text_anywhere(html@, selector@),
{
    let sel = scraper::Selector::parse(selector).ok()?;
    let doc = scraper::Html::parse_document(html);
    let element = doc.select(&sel).next()?;
    Some(element.text().collect::<String>())
}

/// Parses as `has_element` does, takes the first element that
/// `ElementRef::select` gives below `Html::root_element`, and reads the
/// attribute with `Element::attr`. Trusted: the result is what `first_attr`
/// names.
#[verifier::external_body]
pub(crate) fn element_attr(html: &str, selector: &str, attr: &str) -> (t: Option<String>)
    ensures
        opt_view(t) == first_attr(html@, selector@, attr@),
{
    let sel = scraper::Selector::parse(selector).ok()?;
    let doc = scraper::Html::parse_document(html);
    let element = doc.root_element().select(&sel).next()?;
    element.value().attr(attr).map(|s| s.to_string())
}

/// Parses `html` with `Html::parse_document` and joins what `ElementRef::text`
/// yields for `Html::root_element`. Trusted: the result is what `page_text`
/// names.
#[verifier::external_body]
pub(crate) fn document_text(html: &str) -> (t: String)
    ensures
        t@ == page_text(html@),
{
    scraper::Html::parse_document(html).root_element().text().collect::<String>()
}

/// The text under the first element that `selector` matches, without the
/// white space around it.
pub open spec fn selected_text(html: Seq<char>, selector: Seq<char>) -> Option<Seq<char>> {
    match first_text(html, selector) {
        Some(t) => Some(trim(t)),
        None => None,
    }
}

/// The text of an optional value; empty where there is none.
pub open spec fn or_empty(t: Option<Seq<char>>) -> Seq<char> {
    match t {
        Some(t) => t,
        None => Seq::empty(),
    }
}

/// The trimmed text of a selected element, given the text as selected.
pub fn trimmed(text: Option<String>) -> (r: Option<String>)
    ensures
        opt_view(r) == match opt_view(text) {
            Some(t) => Some(trim(t)),
            None => None,
        },
{
    match text {
        Some(t) => {
            let v = chars_of(t.as_str());
            let (a, b) = trim_bounds(&v, 0, v.len());
            assert(v@.subrange(0, v@.len() as int) == v@);
            Some(string_of(&v, a, b))
        },
        None => None,
    }
}

/// The text under the first element that `selector` matches, without the
/// white space around it.
pub fn extract_text(html: &str, selector: &str) -> (r: Option<String>)
    ensures
        opt_view(r) == selected_text(html@, selector@),
{
    trimmed(element_text(html, selector))
}

/// The class attribute of the first element that `selector` matches.
pub fn extract_class(html: &str, selector: &str) -> (r: Option<String>)
    ensures
        opt_view(r) == first_attr(html@, selector@, "class"@),
{
    element_attr(html, selector, "class")
}

} // verus!
