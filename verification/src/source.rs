//! Site adapters: what is read from the pages of one site, and how the adapter for an
//! address is found.

use vstd::prelude::*;
use crate::book::{BookInfo, BookInfoView};
use crate::template::{ChapterTemplate, ChapterView};
use crate::text::{found_texts, trim, trimmed};

pub mod royal_road;

pub use crate::source::royal_road::RoyalRoad;

verus! {

/// Why a page did not give what was asked of it.
#[derive(Clone, Copy, Debug, PartialEq, Eq)]
pub enum ExtractError {
    /// A selector that the adapter uses was refused.
    Selector,
    /// The address of the index page does not name a book.
    Address,
    /// The page names no author.
    Author,
    /// The page has no title.
    Title,
    /// The link of the chapter at this position has no target, or none that is an address.
    ChapterLink { index: usize },
    /// The time beside the chapter at this position is missing or unreadable.
    ChapterTime { index: usize },
    /// The page shows no time of any chapter.
    NoChapterTime,
    /// The page has no chapter body.
    Content,
    /// The page does not say when the chapter was published.
    Published,
}

/// The text of the first element found, without the white space at its ends; `absent`
/// where nothing was found.
pub open spec fn heading(found: Option<Seq<Seq<char>>>, absent: ExtractError) -> Result<
    Seq<char>,
    ExtractError,
> {
    match found {
        None => Err(ExtractError::Selector),
        Some(list) => if list.len() == 0 {
            Err(absent)
        } else {
            Ok(trimmed(list[0]))
        },
    }
}

/// As `heading`, but a text that is empty counts as absent.
pub open spec fn filled_heading(found: Option<Seq<Seq<char>>>, absent: ExtractError) -> Result<
    Seq<char>,
    ExtractError,
> {
    match heading(found, absent) {
        Ok(text) => if text.len() == 0 {
            Err(absent)
        } else {
            Ok(text)
        },
        Err(e) => Err(e),
    }
}

/// Whether `r` is the text `expected`, or the same error.
pub open spec fn is_text(r: Result<String, ExtractError>, expected: Result<
    Seq<char>,
    ExtractError,
>) -> bool {
    match r {
        Ok(s) => expected == Ok::<Seq<char>, ExtractError>(s@),
        Err(e) => expected == Err::<Seq<char>, ExtractError>(e),
    }
}

/// The text of the first element that a selection found, without the white space at its
/// ends; `absent` where it found none.
pub fn extract_text(found: &Option<Vec<String>>, absent: ExtractError) -> (r: Result<
    String,
    ExtractError,
>)
    ensures
        is_text(r, heading(found_texts(*found), absent)),
{
    match found {
        None => Err(ExtractError::Selector),
        Some(list) => {
            if list.len() == 0 {
                Err(absent)
            } else {
                Ok(trim(list[0].as_str()))
            }
        },
    }
}

/// As `extract_text`, but a text that is empty counts as absent.
pub fn extract_filled_text(found: &Option<Vec<String>>, absent: ExtractError) -> (r: Result<
    String,
    ExtractError,
>)
    ensures
        is_text(r, filled_heading(found_texts(*found), absent)),
{
    match extract_text(found, absent) {
        Ok(text) => {
            if text.as_str().unicode_len() == 0 {
                Err(absent)
            } else {
                Ok(text)
            }
        },
        Err(e) => Err(e),
    }
}

/// What a site adapter can do: tell whether an address belongs to its site, and read the
/// index page of a book and the page of a chapter.
pub trait EpubSource {
    /// Whether the address `url` belongs to the site.
    spec fn recognizes(&self, url: Seq<char>) -> bool;

    /// What the index page `document`, found at `url`, says of the book.
    spec fn index_of(&self, url: Seq<char>, document: Seq<char>) -> Result<
        BookInfoView,
        ExtractError,
    >;

    /// What the page `document` says of its chapter.
    spec fn chapter_of(&self, document: Seq<char>) -> Result<ChapterView, ExtractError>;

    /// Whether the address belongs to the site. Looks at the address only.
    fn matches_url(&self, book_url: &str) -> (r: bool)
        ensures
            r == self.recognizes(book_url@),
    ;

    /// Reads the index page of a book.
    fn parse_index(&self, url: &str, document: &str) -> (r: Result<BookInfo, ExtractError>)
        ensures
            match r {
                Ok(book) => self.index_of(url@, document@) == Ok::<BookInfoView, ExtractError>(
                    book@,
                ),
                Err(e) => self.index_of(url@, document@) == Err::<BookInfoView, ExtractError>(e),
            },
            r matches Ok(book) ==> book@.wf(),
    ;

    /// Reads the page of one chapter.
    fn parse_chapter(&self, document: &str) -> (r: Result<ChapterTemplate, ExtractError>)
        ensures
            match r {
                Ok(chapter) => self.chapter_of(document@) == Ok::<ChapterView, ExtractError>(
                    chapter@,
                ),
                Err(e) => self.chapter_of(document@) == Err::<ChapterView, ExtractError>(e),
            },
    ;
}

/// The position of the first adapter in `sources` that recognizes `url`; `None` where none
/// does.
pub fn find_source(sources: &[&dyn EpubSource], url: &str) -> (r: Option<usize>)
    ensures
        match r {
            Some(i) => {
                &&& i < sources@.len()
                &&& sources@[i as int].recognizes(url@)
                &&& forall|j: int| 0 <= j < i ==> !(#[trigger] sources@[j]).recognizes(url@)
            },
            None => forall|j: int| 0 <= j < sources@.len() ==> !(#[trigger] sources@[j]).recognizes(
                url@,
            ),
        },
{
    let mut i: usize = 0;
    while i < sources.len()
        invariant
            i <= sources@.len(),
            forall|j: int| 0 <= j < i ==> !(#[trigger] sources@[j]).recognizes(url@),
        decreases sources.len() - i,
    {
        if sources[i].matches_url(url) {
            return Some(i);
        }
        i += 1;
    }
    None
}

} // verus!
