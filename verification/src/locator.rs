//! Locators: absolute addresses of resources, held as text. They are read, joined and taken
//! apart by the `url` crate.

use vstd::prelude::*;
use crate::text::{found_texts, optional_text};

verus! {

/// The address that `text` writes, as `url::Url::parse` reads it and writes it back; `None`
/// where it refuses `text`.
pub uninterp spec fn url_normal_form(text: Seq<char>) -> Option<Seq<char>>;

/// The domain name of the host of the address `text`, as `url::Url::domain` gives it;
/// `None` where `text` is no address or its host is no domain name.
pub uninterp spec fn url_domain(text: Seq<char>) -> Option<Seq<char>>;

/// The address that `reference` means when it is found in a document at the address
/// `base`, as `url::Url::join` gives it; `None` where `base` is no address or the two do
/// not make one.
pub uninterp spec fn url_joined(base: Seq<char>, reference: Seq<char>) -> Option<Seq<char>>;

/// The segments of the path of the address `text`, as `url::Url::path_segments` gives
/// them; `None` where `text` is no address or cannot be a base.
pub uninterp spec fn url_path_segments(text: Seq<char>) -> Option<Seq<Seq<char>>>;

/// Reads `text` with `url::Url::parse` and writes the address back as text. The contract
/// only names that result.
#[verifier::external_body]
pub(crate) fn normal_form(text: &str) -> (r: Option<String>)
    ensures
        optional_text(r) == url_normal_form(text@),
{
    match url::Url::parse(text) {
        Ok(u) => Some(String::from(u)),
        Err(_) => None,
    }
}

/// Reads `text` with `url::Url::parse` and asks `Url::domain` for its domain name. The
/// contract only names that result.
#[verifier::external_body]
pub(crate) fn domain(text: &str) -> (r: Option<String>)
    ensures
        optional_text(r) == url_domain(text@),
{
    match url::Url::parse(text) {
        Ok(u) => u.domain().map(String::from),
        Err(_) => None,
    }
}

/// Reads `base` with `url::Url::parse` and resolves `reference` against it with
/// `Url::join`. The contract only names that result.
#[verifier::external_body]
pub(crate) fn join(base: &str, reference: &str) -> (r: Option<String>)
    ensures
        optional_text(r) == url_joined(base@, reference@),
{
    match url::Url::parse(base) {
        Ok(u) => match u.join(reference) {
            Ok(joined) => Some(String::from(joined)),
            Err(_) => None,
        },
        Err(_) => None,
    }
}

/// Reads `text` with `url::Url::parse` and collects what `Url::path_segments` yields. The
/// contract only names that result.
#[verifier::external_body]
pub(crate) fn path_segments(text: &str) -> (r: Option<Vec<String>>)
    ensures
        found_texts(r) == url_path_segments(text@),
{
    match url::Url::parse(text) {
        Ok(u) => u.path_segments().map(|segments| segments.map(String::from).collect()),
        Err(_) => None,
    }
}

} // verus!
