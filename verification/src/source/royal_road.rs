//! The adapter for royalroad.com.

use vstd::prelude::*;
use vstd::string::StringExecFns;
use crate::book::{id_text, is_id_char, is_id_text, is_safe_id, BookInfo, BookInfoView};
use crate::html::{
    select_attribute, select_markup, select_text, selected_attribute, selected_markup,
    selected_text,
};
use crate::locator::{
    domain, join, normal_form, path_segments, url_domain, url_joined, url_normal_form,
    url_path_segments,
};
use crate::markup::{close_void_elements, void_closed};
use crate::source::{
    extract_filled_text, extract_text, filled_heading, heading, EpubSource, ExtractError,
};
use crate::template::{ChapterTemplate, ChapterView};
use crate::text::{decimal_i64, optional_text, optional_texts, parse_i64, texts};
use crate::timestamp::{civil_of, iso8601_civil, parse_iso, unix_civil, Timestamp};

verus! {

/// The domain name of the site.
pub const DOMAIN: &'static str = "www.royalroad.com";

/// Finds the link to the profile of the author on an index page.
pub const AUTHOR_SELECTOR: &'static str = "[href^='/profile']";

/// Finds the title of a page.
pub const TITLE_SELECTOR: &'static str = "h1";

/// Finds the links to the chapters on an index page.
pub const CHAPTER_LINK_SELECTOR: &'static str = ".chapter-row > td:first-of-type a";

/// Finds the times of the chapters on an index page.
pub const CHAPTER_TIME_SELECTOR: &'static str = ".chapter-row time";

/// Finds the body of a chapter on its page.
pub const CONTENT_SELECTOR: &'static str = ".chapter-content";

/// Finds the time of publication on the page of a chapter.
pub const PUBLISHED_SELECTOR: &'static str = "[title='Published'] ~ time";

/// The attribute that holds the target of a link.
pub const LINK_TARGET: &'static str = "href";

/// The attribute that holds a time in ISO 8601.
pub const TIME_VALUE: &'static str = "datetime";

/// The attribute that holds a time in seconds since the start of 1970.
pub const UNIX_TIME_VALUE: &'static str = "unixtime";

/// What stands before the number of a book in its identifier.
pub const ID_PREFIX: &'static str = "royalroad-";

/// Where the site keeps the covers.
pub const COVER_DIRECTORY: &'static str = "https://www.royalroadcdn.com/public/covers-large/";

/// What stands between number and name in the file of a cover.
pub const COVER_SEPARATOR: &'static str = "-";

/// The extension of the file of a cover.
pub const COVER_EXTENSION: &'static str = ".jpg";

/// The adapter for royalroad.com.
#[derive(Debug)]
pub struct RoyalRoad {}

/// The addresses that the first `count` link targets mean on a page at `base`, in the
/// order of the targets; the error of the first target that is missing or means none.
pub open spec fn chapter_links(
    base: Seq<char>,
    targets: Seq<Option<Seq<char>>>,
    count: nat,
) -> Result<Seq<Seq<char>>, ExtractError>
    decreases count,
{
    if count == 0 {
        Ok(Seq::empty())
    } else {
        match chapter_links(base, targets, (count - 1) as nat) {
            Err(e) => Err(e),
            Ok(links) => match targets[count - 1] {
                None => Err(ExtractError::ChapterLink { index: (count - 1) as usize }),
                Some(target) => match url_joined(base, target) {
                    None => Err(ExtractError::ChapterLink { index: (count - 1) as usize }),
                    Some(link) => Ok(links.push(link)),
                },
            },
        }
    }
}

/// The timestamp that a time value writes, if it is there and writes one.
pub open spec fn time_of(value: Option<Seq<char>>) -> Option<Timestamp> {
    match value {
        None => None,
        Some(text) => civil_of(iso8601_civil(text)),
    }
}

/// The timestamps that the first `count` time values write, in their order; the error of
/// the first value that is missing or writes none.
pub open spec fn chapter_times(values: Seq<Option<Seq<char>>>, count: nat) -> Result<
    Seq<Timestamp>,
    ExtractError,
>
    decreases count,
{
    if count == 0 {
        Ok(Seq::empty())
    } else {
        match chapter_times(values, (count - 1) as nat) {
            Err(e) => Err(e),
            Ok(times) => match time_of(values[count - 1]) {
                None => Err(ExtractError::ChapterTime { index: (count - 1) as usize }),
                Some(time) => Ok(times.push(time)),
            },
        }
    }
}

/// The latest of the first `count` timestamps, `count` being at least one.
pub open spec fn latest(times: Seq<Timestamp>, count: nat) -> Timestamp
    decreases count,
{
    if count <= 1 {
        times[0]
    } else {
        let before = latest(times, (count - 1) as nat);
        if times[count - 1].key() > before.key() {
            times[count - 1]
        } else {
            before
        }
    }
}

/// The number of the book and its name in addresses: the second and the third segment of
/// the path of the index page.
pub open spec fn address_parts(segments: Option<Seq<Seq<char>>>) -> Option<(Seq<char>, Seq<char>)> {
    match segments {
        None => None,
        Some(list) => if list.len() < 3 {
            None
        } else {
            Some((list[1], list[2]))
        },
    }
}

/// The identifier of the book with the number `fiction`.
pub open spec fn book_id(fiction: Seq<char>) -> Seq<char> {
    ID_PREFIX@ + fiction
}

/// The identifier of a book whose number is safe in an identifier is safe.
pub proof fn lemma_book_id_is_safe(fiction: Seq<char>)
    requires
        is_id_text(fiction),
    ensures
        is_safe_id(book_id(fiction)),
{
    reveal_strlit("royalroad-");
    let id = book_id(fiction);
    assert forall|i: int| 0 <= i < id.len() implies is_id_char(#[trigger] id[i]) by {
        if i >= 10 {
            assert(id[i] == fiction[i - 10]);
        }
    }
}

/// Where the cover of the book with the number `fiction` and the name `slug` is kept.
pub open spec fn cover_address(fiction: Seq<char>, slug: Seq<char>) -> Seq<char> {
    COVER_DIRECTORY@ + fiction + COVER_SEPARATOR@ + slug + COVER_EXTENSION@
}

/// What the index page `document`, found at `url`, says of the book: author and title from
/// the first link to a profile and the first heading, neither empty; the chapters from the
/// links of the chapter rows, in the order in which the search of the page gives them; the
/// time of the latest chapter; and identifier and cover from the number and the name of the
/// book in the path of `url`, the number being made of characters that are safe in an
/// identifier.
pub open spec fn royal_road_index(url: Seq<char>, document: Seq<char>) -> Result<
    BookInfoView,
    ExtractError,
> {
    match filled_heading(selected_text(document, AUTHOR_SELECTOR@), ExtractError::Author) {
        Err(e) => Err(e),
        Ok(author) => match filled_heading(
            selected_text(document, TITLE_SELECTOR@),
            ExtractError::Title,
        ) {
            Err(e) => Err(e),
            Ok(title) => match selected_attribute(document, CHAPTER_LINK_SELECTOR@, LINK_TARGET@) {
                None => Err(ExtractError::Selector),
                Some(targets) => match chapter_links(url, targets, targets.len()) {
                    Err(e) => Err(e),
                    Ok(chapters) => match selected_attribute(
                        document,
                        CHAPTER_TIME_SELECTOR@,
                        TIME_VALUE@,
                    ) {
                        None => Err(ExtractError::Selector),
                        Some(values) => match chapter_times(values, values.len()) {
                            Err(e) => Err(e),
                            Ok(times) => if times.len() == 0 {
                                Err(ExtractError::NoChapterTime)
                            } else {
                                match address_parts(url_path_segments(url)) {
                                    None => Err(ExtractError::Address),
                                    Some(parts) => if parts.0.len() == 0 || !is_id_text(parts.0) {
                                        Err(ExtractError::Address)
                                    } else {
                                        Ok(
                                            BookInfoView {
                                                id: book_id(parts.0),
                                                title,
                                                author_name: author,
                                                chapters,
                                                cover: url_normal_form(
                                                    cover_address(parts.0, parts.1),
                                                ),
                                                modified: latest(times, times.len()),
                                            },
                                        )
                                    },
                                }
                            },
                        },
                    },
                },
            },
        },
    }
}

/// The time that the value of `unixtime` writes: seconds since the start of 1970, in
/// decimal.
pub open spec fn published_time(value: Option<Seq<char>>) -> Option<Timestamp> {
    match value {
        None => None,
        Some(text) => match decimal_i64(text) {
            None => None,
            Some(seconds) => civil_of(unix_civil(seconds as int)),
        },
    }
}

/// What the page `document` says of its chapter: the body from the first element of the
/// chapter content, its void elements closed; the title from the first heading; the time
/// from the machine-readable value beside the word "Published".
pub open spec fn royal_road_chapter(document: Seq<char>) -> Result<ChapterView, ExtractError> {
    match selected_markup(document, CONTENT_SELECTOR@) {
        None => Err(ExtractError::Selector),
        Some(bodies) => if bodies.len() == 0 {
            Err(ExtractError::Content)
        } else {
            match heading(selected_text(document, TITLE_SELECTOR@), ExtractError::Title) {
                Err(e) => Err(e),
                Ok(title) => match selected_attribute(
                    document,
                    PUBLISHED_SELECTOR@,
                    UNIX_TIME_VALUE@,
                ) {
                    None => Err(ExtractError::Selector),
                    Some(values) => if values.len() == 0 {
                        Err(ExtractError::Published)
                    } else {
                        match published_time(values[0]) {
                            None => Err(ExtractError::Published),
                            Some(time) => Ok(
                                ChapterView {
                                    text: void_closed(bodies[0]),
                                    title,
                                    published_at: time,
                                },
                            ),
                        }
                    },
                },
            }
        },
    }
}

proof fn lemma_chapter_links_stay_failed(
    base: Seq<char>,
    targets: Seq<Option<Seq<char>>>,
    failed: nat,
    count: nat,
)
    requires
        failed <= count,
        chapter_links(base, targets, failed) is Err,
    ensures
        chapter_links(base, targets, count) == chapter_links(base, targets, failed),
    decreases count,
{
    if failed < count {
        lemma_chapter_links_stay_failed(base, targets, failed, (count - 1) as nat);
    }
}

proof fn lemma_chapter_times_stay_failed(values: Seq<Option<Seq<char>>>, failed: nat, count: nat)
    requires
        failed <= count,
        chapter_times(values, failed) is Err,
    ensures
        chapter_times(values, count) == chapter_times(values, failed),
    decreases count,
{
    if failed < count {
        lemma_chapter_times_stay_failed(values, failed, (count - 1) as nat);
    }
}

/// Where every link target means an address, the chapters are as many as the targets, and
/// the chapter at each position is what the target at that position means: the order of the
/// chapters is the order in which the page gave the links.
pub proof fn lemma_chapter_links_in_order(
    base: Seq<char>,
    targets: Seq<Option<Seq<char>>>,
    count: nat,
)
    requires
        count <= targets.len(),
        chapter_links(base, targets, count) is Ok,
    ensures
        chapter_links(base, targets, count)->Ok_0.len() == count,
        forall|i: int|
            0 <= i < count ==> {
                &&& (#[trigger] targets[i]) is Some
                &&& url_joined(base, targets[i]->0) == Some(
                    chapter_links(base, targets, count)->Ok_0[i],
                )
            },
    decreases count,
{
    if count > 0 {
        lemma_chapter_links_in_order(base, targets, (count - 1) as nat);
    }
}

/// The latest of some timestamps is one of them, and none of them is later.
pub proof fn lemma_latest_is_maximum(times: Seq<Timestamp>, count: nat)
    requires
        0 < count <= times.len(),
    ensures
        exists|i: int| 0 <= i < count && times[i] == latest(times, count),
        forall|i: int| 0 <= i < count ==> (#[trigger] times[i]).key() <= latest(times, count).key(),
    decreases count,
{
    if count > 1 {
        lemma_latest_is_maximum(times, (count - 1) as nat);
        let before = latest(times, (count - 1) as nat);
        let i = choose|i: int| 0 <= i < count - 1 && times[i] == before;
        if times[count - 1].key() > before.key() {
            assert(times[count - 1] == latest(times, count));
        } else {
            assert(times[i] == latest(times, count));
        }
    } else {
        assert(times[0] == latest(times, count));
    }
}

/// The addresses that link targets mean on a page at `base`, in the order of the targets.
pub fn resolve_links(base: &str, targets: &Vec<Option<String>>) -> (r: Result<
    Vec<String>,
    ExtractError,
>)
    ensures
        match r {
            Ok(links) => chapter_links(base@, optional_texts(targets@), targets@.len()) == Ok::<
                Seq<Seq<char>>,
                ExtractError,
            >(texts(links@)),
            Err(e) => chapter_links(base@, optional_texts(targets@), targets@.len()) == Err::<
                Seq<Seq<char>>,
                ExtractError,
            >(e),
        },
{
    let mut links: Vec<String> = Vec::new();
    let mut i: usize = 0;
    proof {
        assert(texts(links@) =~= Seq::<Seq<char>>::empty());
    }
    while i < targets.len()
        invariant
            i <= targets@.len(),
            chapter_links(base@, optional_texts(targets@), i as nat) == Ok::<
                Seq<Seq<char>>,
                ExtractError,
            >(texts(links@)),
        decreases targets.len() - i,
    {
        let ghost before = texts(links@);
        let link = match &targets[i] {
            None => None,
            Some(target) => join(base, target.as_str()),
        };
        match link {
            None => {
                proof {
                    lemma_chapter_links_stay_failed(
                        base@,
                        optional_texts(targets@),
                        (i + 1) as nat,
                        targets@.len(),
                    );
                }
                return Err(ExtractError::ChapterLink { index: i });
            },
            Some(address) => {
                links.push(address);
                proof {
                    assert(texts(links@) =~= before.push(address@));
                }
            },
        }
        i += 1;
    }
    Ok(links)
}

/// The timestamps that time values write, in their order.
pub fn read_times(values: &Vec<Option<String>>) -> (r: Result<Vec<Timestamp>, ExtractError>)
    ensures
        match r {
            Ok(times) => chapter_times(optional_texts(values@), values@.len()) == Ok::<
                Seq<Timestamp>,
                ExtractError,
            >(times@),
            Err(e) => chapter_times(optional_texts(values@), values@.len()) == Err::<
                Seq<Timestamp>,
                ExtractError,
            >(e),
        },
        r matches Ok(times) ==> forall|k: int|
            0 <= k < times@.len() ==> (#[trigger] times@[k]).wf(),
{
    let mut times: Vec<Timestamp> = Vec::new();
    let mut i: usize = 0;
    while i < values.len()
        invariant
            i <= values@.len(),
            chapter_times(optional_texts(values@), i as nat) == Ok::<Seq<Timestamp>, ExtractError>(
                times@,
            ),
            forall|k: int| 0 <= k < times@.len() ==> (#[trigger] times@[k]).wf(),
        decreases values.len() - i,
    {
        let time = match &values[i] {
            None => None,
            Some(text) => parse_iso(text.as_str()),
        };
        match time {
            None => {
                proof {
                    lemma_chapter_times_stay_failed(
                        optional_texts(values@),
                        (i + 1) as nat,
                        values@.len(),
                    );
                }
                return Err(ExtractError::ChapterTime { index: i });
            },
            Some(t) => {
                times.push(t);
            },
        }
        i += 1;
    }
    Ok(times)
}

/// The latest of `times`, of which there is at least one.
pub fn latest_time(times: &Vec<Timestamp>) -> (r: Timestamp)
    requires
        times@.len() > 0,
    ensures
        r == latest(times@, times@.len()),
{
    let mut best = times[0];
    let mut i: usize = 1;
    while i < times.len()
        invariant
            1 <= i <= times@.len(),
            best == latest(times@, i as nat),
        decreases times.len() - i,
    {
        if times[i].is_after(&best) {
            best = times[i];
        }
        i += 1;
    }
    best
}

/// The identifier of the book with the number `fiction`.
pub fn book_identifier(fiction: &str) -> (id: String)
    ensures
        id@ == book_id(fiction@),
{
    let mut id = String::from_str(ID_PREFIX);
    id.append(fiction);
    id
}

/// Where the cover of the book with the number `fiction` and the name `slug` is kept.
pub fn cover_location(fiction: &str, slug: &str) -> (address: String)
    ensures
        address@ == cover_address(fiction@, slug@),
{
    let mut address = String::from_str(COVER_DIRECTORY);
    address.append(fiction);
    address.append(COVER_SEPARATOR);
    address.append(slug);
    address.append(COVER_EXTENSION);
    address
}

/// The time that the value of `unixtime` writes.
pub fn read_published(value: &Option<String>) -> (r: Option<Timestamp>)
    ensures
        r == published_time(optional_text(*value)),
        r matches Some(t) ==> t.wf(),
{
    match value {
        None => None,
        Some(text) => match parse_i64(text.as_str()) {
            None => None,
            Some(seconds) => Timestamp::from_unix(seconds),
        },
    }
}

impl EpubSource for RoyalRoad {
    open spec fn recognizes(&self, url: Seq<char>) -> bool {
        url_domain(url) == Some(DOMAIN@)
    }

    open spec fn index_of(&self, url: Seq<char>, document: Seq<char>) -> Result<
        BookInfoView,
        ExtractError,
    > {
        royal_road_index(url, document)
    }

    open spec fn chapter_of(&self, document: Seq<char>) -> Result<ChapterView, ExtractError> {
        royal_road_chapter(document)
    }

    fn matches_url(&self, book_url: &str) -> (r: bool) {
        match domain(book_url) {
            Some(name) => name == String::from_str(DOMAIN),
            None => false,
        }
    }

    fn parse_index(&self, url: &str, document: &str) -> (r: Result<BookInfo, ExtractError>) {
        let authors = select_text(document, AUTHOR_SELECTOR);
        let author_name = match extract_filled_text(&authors, ExtractError::Author) {
            Ok(text) => text,
            Err(e) => {
                return Err(e);
            },
        };
        let titles = select_text(document, TITLE_SELECTOR);
        let title = match extract_filled_text(&titles, ExtractError::Title) {
            Ok(text) => text,
            Err(e) => {
                return Err(e);
            },
        };
        let targets = match select_attribute(document, CHAPTER_LINK_SELECTOR, LINK_TARGET) {
            Some(found) => found,
            None => {
                return Err(ExtractError::Selector);
            },
        };
        let chapters = match resolve_links(url, &targets) {
            Ok(links) => links,
            Err(e) => {
                return Err(e);
            },
        };
        let values = match select_attribute(document, CHAPTER_TIME_SELECTOR, TIME_VALUE) {
            Some(found) => found,
            None => {
                return Err(ExtractError::Selector);
            },
        };
        let times = match read_times(&values) {
            Ok(times) => times,
            Err(e) => {
                return Err(e);
            },
        };
        if times.len() == 0 {
            return Err(ExtractError::NoChapterTime);
        }
        let modified = latest_time(&times);
        let segments = match path_segments(url) {
            Some(list) => list,
            None => {
                return Err(ExtractError::Address);
            },
        };
        if segments.len() < 3 {
            return Err(ExtractError::Address);
        }
        if segments[1].as_str().unicode_len() == 0 || !id_text(segments[1].as_str()) {
            return Err(ExtractError::Address);
        }
        proof {
            lemma_latest_is_maximum(times@, times@.len());
            lemma_book_id_is_safe(segments@[1]@);
        }
        let id = book_identifier(segments[1].as_str());
        let cover_text = cover_location(segments[1].as_str(), segments[2].as_str());
        let cover = normal_form(cover_text.as_str());
        Ok(BookInfo { id, title, author_name, chapters, cover, modified })
    }

    fn parse_chapter(&self, document: &str) -> (r: Result<ChapterTemplate, ExtractError>) {
        let bodies = match select_markup(document, CONTENT_SELECTOR) {
            Some(found) => found,
            None => {
                return Err(ExtractError::Selector);
            },
        };
        if bodies.len() == 0 {
            return Err(ExtractError::Content);
        }
        let text = close_void_elements(bodies[0].as_str());
        let titles = select_text(document, TITLE_SELECTOR);
        let title = match extract_text(&titles, ExtractError::Title) {
            Ok(text) => text,
            Err(e) => {
                return Err(e);
            },
        };
        let values = match select_attribute(document, PUBLISHED_SELECTOR, UNIX_TIME_VALUE) {
            Some(found) => found,
            None => {
                return Err(ExtractError::Selector);
            },
        };
        if values.len() == 0 {
            return Err(ExtractError::Published);
        }
        match read_published(&values[0]) {
            None => Err(ExtractError::Published),
            Some(published_at) => Ok(ChapterTemplate { text, title, published_at }),
        }
    }
}

} // verus!
