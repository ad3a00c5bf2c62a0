//! The run for one book, as a machine: each step takes what the last fetch or write
//! brought and says what to do next. The caller fetches and writes; nothing here does.

use vstd::prelude::*;
use vstd::string::StringExecFns;
use crate::book::{BookInfo, BookInfoView};
use crate::download::{keep_successes, successes};
use crate::locator::{normal_form, url_normal_form};
use crate::package::{
    output_file_name, output_path, package_outcome, write_epub, PackagingError,
};
use crate::source::{find_source, EpubSource, ExtractError};
use crate::template::{
    chapter_views, BookContents, ChapterTemplate, ChapterView, ContentsView, Metadata,
    Navigation, NavigationView,
};
use crate::text::{optional_text, optional_texts, texts};

verus! {

/// The language of the books.
pub const LANGUAGE: &'static str = "en-US";

/// The key under which the metadata name the author.
pub const AUTHOR_KEY: &'static str = "author";

/// Why a run ended without a book.
#[derive(Debug)]
pub enum Failure {
    /// The address given is none.
    MalformedUrl,
    /// No adapter knows the site of the address.
    NoSource,
    /// The index page or the cover image could not be fetched.
    Fetch,
    /// A page did not give what was asked of it.
    Extract(ExtractError),
    /// The package could not be made.
    Packaging(PackagingError),
    /// The file of the package could not be written.
    Write,
    /// What was brought does not answer what was asked for.
    Unexpected,
}

/// What the caller is to do next.
#[derive(Debug)]
pub enum Action {
    /// Fetch the index page at this address, as text.
    FetchIndex { url: String },
    /// Fetch the cover image at this address, as bytes.
    FetchCover { url: String },
    /// Fetch the pages at these addresses, as text, a few at a time.
    FetchChapters { urls: Vec<String> },
    /// Write these bytes to the file at this path.
    Write { path: String, bytes: Vec<u8> },
    /// Say why the run failed, and stop.
    Report { failure: Failure },
    /// Stop: the book is written.
    Finish,
}

/// What the caller brings back.
#[derive(Debug)]
pub enum Event {
    /// The text of the index page, or `None` where the fetch failed.
    Index { document: Option<String> },
    /// The bytes of the cover image, or `None` where the fetch failed.
    Cover { bytes: Option<Vec<u8>> },
    /// For each address in the order asked, the text of the page, or `None` where the
    /// fetch failed.
    Chapters { documents: Vec<Option<String>> },
    /// Whether the file was written.
    Written { done: bool },
}

/// How far the run has come.
#[derive(Debug)]
pub enum Stage {
    /// The index page at this address was asked for.
    Index { url: String },
    /// The cover image of this book was asked for.
    Cover { book: BookInfo },
    /// The chapters of this book were asked for.
    Chapters { book: BookInfo, cover: Option<Vec<u8>> },
    /// The file was handed over to be written.
    Writing,
    /// The run is over.
    Finished,
}

/// A stage and what to do in it.
#[derive(Debug)]
pub struct Step {
    pub stage: Stage,
    pub action: Action,
}

/// How a run begins: the position of the adapter that was chosen, if one was, and the first
/// step.
#[derive(Debug)]
pub struct Start {
    pub source: Option<usize>,
    pub step: Step,
}

/// Whether `action` asks for anything to be fetched.
pub open spec fn is_fetch(action: Action) -> bool {
    action is FetchIndex || action is FetchCover || action is FetchChapters
}

impl Step {
    /// Whether the run has ended here with this failure.
    pub open spec fn failed_with(&self, failure: Failure) -> bool {
        self.stage is Finished && self.action == (Action::Report { failure })
    }

}

/// The view of bytes that may be absent.
pub open spec fn optional_bytes(o: Option<Vec<u8>>) -> Option<Seq<u8>> {
    match o {
        Some(b) => Some(b@),
        None => None,
    }
}

/// What a run begins with, for the address `url` and the adapters `sources`: a malformed
/// address ends it; so does an address that no adapter recognizes; else the first adapter
/// that recognizes the address is chosen and its index page asked for.
pub open spec fn begins(sources: Seq<&dyn EpubSource>, url: Seq<char>, start: Start) -> bool {
    match url_normal_form(url) {
        None => start.source is None && start.step.failed_with(Failure::MalformedUrl),
        Some(address) => match start.source {
            None => {
                &&& forall|j: int|
                    0 <= j < sources.len() ==> !(#[trigger] sources[j]).recognizes(address)
                &&& start.step.failed_with(Failure::NoSource)
            },
            Some(i) => {
                &&& i < sources.len()
                &&& sources[i as int].recognizes(address)
                &&& forall|j: int| 0 <= j < i ==> !(#[trigger] sources[j]).recognizes(address)
                &&& start.step.stage matches Stage::Index { url: asked }
                &&& asked@ == address
                &&& start.step.action matches Action::FetchIndex { url: fetched }
                &&& fetched@ == address
            },
        },
    }
}

/// Begins the run for the book at `url`.
pub fn start(sources: &[&dyn EpubSource], url: &str) -> (r: Start)
    ensures
        begins(sources@, url@, r),
{
    let address = match normal_form(url) {
        Some(address) => address,
        None => {
            return Start {
                source: None,
                step: Step {
                    stage: Stage::Finished,
                    action: Action::Report { failure: Failure::MalformedUrl },
                },
            };
        },
    };
    match find_source(sources, address.as_str()) {
        None => Start {
            source: None,
            step: Step {
                stage: Stage::Finished,
                action: Action::Report { failure: Failure::NoSource },
            },
        },
        Some(i) => {
            let asked = address.clone();
            Start {
                source: Some(i),
                step: Step {
                    stage: Stage::Index { url: asked },
                    action: Action::FetchIndex { url: address },
                },
            }
        },
    }
}

/// A copy of each text of `list`.
fn copy_texts(list: &Vec<String>) -> (copy: Vec<String>)
    ensures
        texts(copy@) == texts(list@),
{
    let mut copy: Vec<String> = Vec::new();
    let mut i: usize = 0;
    proof {
        assert(texts(copy@) =~= texts(list@).take(0));
    }
    while i < list.len()
        invariant
            i <= list@.len(),
            texts(copy@) == texts(list@).take(i as int),
        decreases list.len() - i,
    {
        let ghost before = texts(copy@);
        let text = list[i].clone();
        copy.push(text);
        proof {
            assert(texts(copy@) =~= before.push(text@));
            assert(texts(list@).take(i + 1) =~= texts(list@).take(i as int).push(
                list@[i as int]@,
            ));
        }
        i += 1;
    }
    proof {
        assert(texts(list@).take(i as int) =~= texts(list@));
    }
    copy
}

/// The step that asks for the chapters of `book`.
pub open spec fn asks_chapters(book: BookInfoView, cover: Option<Seq<u8>>, next: Step) -> bool {
    &&& next.stage matches Stage::Chapters { book: held, cover: kept }
    &&& held@ == book
    &&& optional_bytes(kept) == cover
    &&& next.action matches Action::FetchChapters { urls }
    &&& texts(urls@) == book.chapters
}

/// What follows the fetch of the index page: where the fetch failed or the page does not
/// give a book, the run ends; else the cover is asked for, where the book has one, and the
/// chapters where it has none.
pub open spec fn after_index<S: EpubSource + ?Sized>(
    source: &S,
    url: Seq<char>,
    document: Option<Seq<char>>,
    next: Step,
) -> bool {
    match document {
        None => next.failed_with(Failure::Fetch),
        Some(page) => match source.index_of(url, page) {
            Err(e) => next.failed_with(Failure::Extract(e)),
            Ok(book) => match book.cover {
                Some(address) => {
                    &&& next.stage matches Stage::Cover { book: held }
                    &&& held@ == book
                    &&& next.action matches Action::FetchCover { url: fetched }
                    &&& fetched@ == address
                },
                None => asks_chapters(book, None, next),
            },
        },
    }
}

fn ask_chapters(book: BookInfo, cover: Option<Vec<u8>>) -> (next: Step)
    ensures
        asks_chapters(book@, optional_bytes(cover), next),
{
    let urls = copy_texts(&book.chapters);
    Step { stage: Stage::Chapters { book, cover }, action: Action::FetchChapters { urls } }
}

/// Takes the index page, found at `url`, or the news that it could not be fetched.
pub fn on_index<S: EpubSource + ?Sized>(source: &S, url: &str, document: Option<String>) -> (next:
    Step)
    ensures
        after_index(source, url@, optional_text(document), next),
{
    let page = match document {
        Some(page) => page,
        None => {
            return Step {
                stage: Stage::Finished,
                action: Action::Report { failure: Failure::Fetch },
            };
        },
    };
    match source.parse_index(url, page.as_str()) {
        Err(e) => Step {
            stage: Stage::Finished,
            action: Action::Report { failure: Failure::Extract(e) },
        },
        Ok(book) => {
            let cover = match &book.cover {
                Some(address) => Some(address.clone()),
                None => None,
            };
            match cover {
                Some(address) => Step {
                    stage: Stage::Cover { book },
                    action: Action::FetchCover { url: address },
                },
                None => ask_chapters(book, None),
            }
        },
    }
}

/// What follows the fetch of the cover image: where it failed, the run ends; else the
/// chapters are asked for.
pub open spec fn after_cover(book: BookInfoView, bytes: Option<Seq<u8>>, next: Step) -> bool {
    match bytes {
        None => next.failed_with(Failure::Fetch),
        Some(image) => asks_chapters(book, Some(image), next),
    }
}

/// Takes the cover image, or the news that it could not be fetched.
pub fn on_cover(book: BookInfo, bytes: Option<Vec<u8>>) -> (next: Step)
    ensures
        after_cover(book@, optional_bytes(bytes), next),
{
    match bytes {
        None => Step { stage: Stage::Finished, action: Action::Report { failure: Failure::Fetch } },
        Some(image) => ask_chapters(book, Some(image)),
    }
}

/// What the first `count` pages say of their chapters, in the order of the pages; the
/// error of the first page that does not give a chapter.
pub open spec fn parsed_chapters<S: EpubSource + ?Sized>(
    source: &S,
    pages: Seq<Seq<char>>,
    count: nat,
) -> Result<Seq<ChapterView>, ExtractError>
    decreases count,
{
    if count == 0 {
        Ok(Seq::empty())
    } else {
        match parsed_chapters(source, pages, (count - 1) as nat) {
            Err(e) => Err(e),
            Ok(chapters) => match source.chapter_of(pages[count - 1]) {
                Err(e) => Err(e),
                Ok(chapter) => Ok(chapters.push(chapter)),
            },
        }
    }
}

proof fn lemma_parsed_chapters_stay_failed<S: EpubSource + ?Sized>(
    source: &S,
    pages: Seq<Seq<char>>,
    failed: nat,
    count: nat,
)
    requires
        failed <= count,
        parsed_chapters(source, pages, failed) is Err,
    ensures
        parsed_chapters(source, pages, count) == parsed_chapters(source, pages, failed),
    decreases count,
{
    if failed < count {
        lemma_parsed_chapters_stay_failed(source, pages, failed, (count - 1) as nat);
    }
}

/// Reads the chapters of `pages`, in the order of the pages.
pub fn parse_chapters<S: EpubSource + ?Sized>(source: &S, pages: &Vec<String>) -> (r: Result<
    Vec<ChapterTemplate>,
    ExtractError,
>)
    ensures
        match r {
            Ok(chapters) => parsed_chapters(source, texts(pages@), pages@.len()) == Ok::<
                Seq<ChapterView>,
                ExtractError,
            >(chapter_views(chapters@)),
            Err(e) => parsed_chapters(source, texts(pages@), pages@.len()) == Err::<
                Seq<ChapterView>,
                ExtractError,
            >(e),
        },
{
    let mut chapters: Vec<ChapterTemplate> = Vec::new();
    let mut i: usize = 0;
    proof {
        assert(chapter_views(chapters@) =~= Seq::<ChapterView>::empty());
    }
    while i < pages.len()
        invariant
            i <= pages@.len(),
            parsed_chapters(source, texts(pages@), i as nat) == Ok::<
                Seq<ChapterView>,
                ExtractError,
            >(chapter_views(chapters@)),
        decreases pages.len() - i,
    {
        let ghost before = chapter_views(chapters@);
        match source.parse_chapter(pages[i].as_str()) {
            Err(e) => {
                proof {
                    lemma_parsed_chapters_stay_failed(
                        source,
                        texts(pages@),
                        (i + 1) as nat,
                        pages@.len(),
                    );
                }
                return Err(e);
            },
            Ok(chapter) => {
                chapters.push(chapter);
                proof {
                    assert(chapter_views(chapters@) =~= before.push(chapter@));
                }
            },
        }
        i += 1;
    }
    Ok(chapters)
}

/// Where every page gives a chapter, there are as many chapters as pages, and each chapter
/// is what the page at its position says.
pub proof fn lemma_parsed_chapters_in_order<S: EpubSource + ?Sized>(
    source: &S,
    pages: Seq<Seq<char>>,
    count: nat,
)
    requires
        count <= pages.len(),
        parsed_chapters(source, pages, count) is Ok,
    ensures
        parsed_chapters(source, pages, count)->Ok_0.len() == count,
        forall|i: int|
            0 <= i < count ==> source.chapter_of(#[trigger] pages[i]) == Ok::<
                ChapterView,
                ExtractError,
            >(parsed_chapters(source, pages, count)->Ok_0[i]),
    decreases count,
{
    if count > 0 {
        lemma_parsed_chapters_in_order(source, pages, (count - 1) as nat);
    }
}

/// The table of contents of `book` with these chapters.
pub open spec fn navigation_of(book: BookInfoView, chapters: Seq<ChapterView>) -> NavigationView {
    NavigationView { id: book.id, title: book.title, chapters }
}

/// What the manifest of `book` is made from, with this cover and these chapters: the
/// language is American English, and the metadata name the author.
pub open spec fn contents_of(
    book: BookInfoView,
    cover: Option<Seq<u8>>,
    chapters: Seq<ChapterView>,
) -> ContentsView {
    ContentsView {
        id: book.id,
        title: book.title,
        language: LANGUAGE@,
        author: book.author_name,
        modified: book.modified,
        cover_image: cover,
        meta: seq![(AUTHOR_KEY@, book.author_name)],
        chapters,
    }
}

/// What follows the fetch of the chapters. The pages that could not be fetched are left
/// out. Where one of the others does not give a chapter, the run ends with its error. Else
/// the package is made of the book, the cover and the chapters, in the order of the pages,
/// and is handed over to be written to the file named by author and title; where a file of
/// the package is too large for an archive, the run ends with that error.
pub open spec fn after_chapters<S: EpubSource + ?Sized>(
    source: &S,
    book: BookInfoView,
    cover: Option<Seq<u8>>,
    documents: Seq<Option<Seq<char>>>,
    next: Step,
) -> bool {
    let pages = successes(documents);
    match parsed_chapters(source, pages, pages.len()) {
        Err(e) => next.failed_with(Failure::Extract(e)),
        Ok(chapters) => match package_outcome(
            navigation_of(book, chapters),
            contents_of(book, cover, chapters),
        ) {
            Err(e) => next.failed_with(Failure::Packaging(e)),
            Ok(archive) => {
                &&& next.stage is Writing
                &&& next.action matches Action::Write { path, bytes }
                &&& path@ == output_path(book.author_name, book.title)
                &&& bytes@ == archive
            },
        },
    }
}

/// Takes what the fetches of the chapters brought, in the order in which they were asked
/// for.
pub fn on_chapters<S: EpubSource + ?Sized>(
    source: &S,
    book: BookInfo,
    cover: Option<Vec<u8>>,
    documents: &Vec<Option<String>>,
) -> (next: Step)
    ensures
        after_chapters(source, book@, optional_bytes(cover), optional_texts(documents@), next),
{
    let pages = keep_successes(documents);
    let chapters = match parse_chapters(source, &pages) {
        Ok(chapters) => chapters,
        Err(e) => {
            return Step {
                stage: Stage::Finished,
                action: Action::Report { failure: Failure::Extract(e) },
            };
        },
    };
    let ghost cover_view = optional_bytes(cover);
    let nav = Navigation {
        id: book.id.as_str(),
        title: book.title.as_str(),
        chapters: chapters.as_slice(),
    };
    let mut meta = Metadata::new();
    meta.insert(String::from_str(AUTHOR_KEY), book.author_name.clone());
    let contents = BookContents {
        id: book.id.as_str(),
        title: book.title.as_str(),
        language: String::from_str(LANGUAGE),
        author: book.author_name.as_str(),
        modified: book.modified,
        cover_image: cover,
        meta,
        chapters: chapters.as_slice(),
    };
    proof {
        assert(contents@.meta =~= seq![(AUTHOR_KEY@, book@.author_name)]);
        assert(nav@ == navigation_of(book@, chapter_views(chapters@)));
        assert(contents@ == contents_of(book@, cover_view, chapter_views(chapters@)));
    }
    match write_epub(&nav, &contents) {
        Err(e) => Step {
            stage: Stage::Finished,
            action: Action::Report { failure: Failure::Packaging(e) },
        },
        Ok(bytes) => {
            let path = output_file_name(book.author_name.as_str(), book.title.as_str());
            Step { stage: Stage::Writing, action: Action::Write { path, bytes } }
        },
    }
}

/// What follows the writing of the file.
pub open spec fn after_write(done: bool, next: Step) -> bool {
    if done {
        next.stage is Finished && next.action is Finish
    } else {
        next.failed_with(Failure::Write)
    }
}

/// Takes the news of whether the file was written.
pub fn on_written(done: bool) -> (next: Step)
    ensures
        after_write(done, next),
{
    if done {
        Step { stage: Stage::Finished, action: Action::Finish }
    } else {
        Step { stage: Stage::Finished, action: Action::Report { failure: Failure::Write } }
    }
}

/// What follows `stage` when `event` is brought: the step of the stage that the event
/// answers, and the end of the run where it answers none.
pub open spec fn follows<S: EpubSource + ?Sized>(
    source: &S,
    stage: Stage,
    event: Event,
    next: Step,
) -> bool {
    match (stage, event) {
        (Stage::Index { url }, Event::Index { document }) => after_index(
            source,
            url@,
            optional_text(document),
            next,
        ),
        (Stage::Cover { book }, Event::Cover { bytes }) => after_cover(
            book@,
            optional_bytes(bytes),
            next,
        ),
        (Stage::Chapters { book, cover }, Event::Chapters { documents }) => after_chapters(
            source,
            book@,
            optional_bytes(cover),
            optional_texts(documents@),
            next,
        ),
        (Stage::Writing, Event::Written { done }) => after_write(done, next),
        _ => next.failed_with(Failure::Unexpected),
    }
}

/// Takes what the caller brings back in `stage` and says what to do next.
pub fn step<S: EpubSource + ?Sized>(source: &S, stage: Stage, event: Event) -> (next: Step)
    ensures
        follows(source, stage, event, next),
{
    match (stage, event) {
        (Stage::Index { url }, Event::Index { document }) => on_index(
            source,
            url.as_str(),
            document,
        ),
        (Stage::Cover { book }, Event::Cover { bytes }) => on_cover(book, bytes),
        (Stage::Chapters { book, cover }, Event::Chapters { documents }) => on_chapters(
            source,
            book,
            cover,
            &documents,
        ),
        (Stage::Writing, Event::Written { done }) => on_written(done),
        _ => Step {
            stage: Stage::Finished,
            action: Action::Report { failure: Failure::Unexpected },
        },
    }
}

/// For an address that no adapter recognizes, the run ends at once with the report that
/// there is no source, and nothing is fetched: neither by the first step nor by any step
/// after it.
pub proof fn lemma_unknown_site_fetches_nothing<S: EpubSource + ?Sized>(
    sources: Seq<&dyn EpubSource>,
    url: Seq<char>,
    first: Start,
    source: &S,
    event: Event,
    next: Step,
)
    requires
        begins(sources, url, first),
        url_normal_form(url) matches Some(address) && forall|j: int|
            0 <= j < sources.len() ==> !(#[trigger] sources[j]).recognizes(address),
        follows(source, first.step.stage, event, next),
    ensures
        first.source is None,
        first.step.failed_with(Failure::NoSource),
        !is_fetch(first.step.action),
        next.stage is Finished,
        !is_fetch(next.action),
{
}

} // verus!
