//! What a CSS selector finds in an HTML document. The documents are parsed and searched by
//! the `scraper` crate; this module hands its answers out as plain text.
//!
//! The crate asks `scraper` for its feature `deterministic`: with it an element keeps its
//! attributes in the order of the document, and what is written back as HTML is the same in
//! every run.

use vstd::prelude::*;
use crate::text::{found_optional_texts, found_texts};

verus! {

/// For each element of `document` that `selector` matches, in the order in which
/// `scraper::Html::select` hands them out, the text of its descendant text nodes, joined.
/// `None` where `scraper::Selector::parse` refuses `selector`.
pub uninterp spec fn selected_text(document: Seq<char>, selector: Seq<char>) -> Option<
    Seq<Seq<char>>,
>;

/// For each element of `document` that `selector` matches, in the order in which
/// `scraper::Html::select` hands them out, the element written back as HTML by
/// `scraper::ElementRef::html`. `None` where `scraper::Selector::parse` refuses `selector`.
pub uninterp spec fn selected_markup(document: Seq<char>, selector: Seq<char>) -> Option<
    Seq<Seq<char>>,
>;

/// For each element of `document` that `selector` matches, in the order in which
/// `scraper::Html::select` hands them out, the value of its attribute `name`, if it has one.
/// `None` where `scraper::Selector::parse` refuses `selector`.
pub uninterp spec fn selected_attribute(
    document: Seq<char>,
    selector: Seq<char>,
    name: Seq<char>,
) -> Option<Seq<Option<Seq<char>>>>;

/// Parses `selector` with `scraper::Selector::parse` and `document` with
/// `scraper::Html::parse_document`, and collects the text of each element that
/// `Html::select` yields. The contract only names that result.
#[verifier::external_body]
pub(crate) fn select_text(document: &str, selector: &str) -> (r: Option<Vec<String>>)
    ensures
        found_texts(r) == selected_text(document@, selector@),
{
    match scraper::Selector::parse(selector) {
        Ok(sel) => {
            let html = scraper::Html::parse_document(document);
            Some(html.select(&sel).map(|e| e.text().collect::<String>()).collect())
        },
        Err(_) => None,
    }
}

/// Parses `selector` with `scraper::Selector::parse` and `document` with
/// `scraper::Html::parse_document`, and collects `ElementRef::html` of each element that
/// `Html::select` yields. The contract only names that result.
#[verifier::external_body]
pub(crate) fn select_markup(document: &str, selector: &str) -> (r: Option<Vec<String>>)
    ensures
        found_texts(r) == selected_markup(document@, selector@),
{
    match scraper::Selector::parse(selector) {
        Ok(sel) => {
            let html = scraper::Html::parse_document(document);
            Some(html.select(&sel).map(|e| e.html()).collect())
        },
        Err(_) => None,
    }
}

/// Parses `selector` with `scraper::Selector::parse` and `document` with
/// `scraper::Html::parse_document`, and collects `Element::attr(name)` of each element that
/// `Html::select` yields. The contract only names that result.
#[verifier::external_body]
pub(crate) fn select_attribute(document: &str, selector: &str, name: &str) -> (r: Option<
    Vec<Option<String>>,
>)
    ensures
        found_optional_texts(r) == selected_attribute(document@, selector@, name@),
{
    match scraper::Selector::parse(selector) {
        Ok(sel) => {
            let html = scraper::Html::parse_document(document);
            Some(html.select(&sel).map(|e| e.value().attr(name).map(String::from)).collect())
        },
        Err(_) => None,
    }
}

} // verus!
