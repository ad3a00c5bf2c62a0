//! The documents of a book as markup: the table of contents, the package manifest and one
//! document for each chapter.

use vstd::prelude::*;
use vstd::string::StringExecFns;
use crate::markup::{xml_escape, xml_escaped};
use crate::text::{decimal_text, push_decimal};
use crate::timestamp::{utc_text, Timestamp};

verus! {

/// The timestamp as date, time to the second and the designator of UTC, without a
/// fraction of a second: `YYYY-MM-DDTHH:MM:SSZ`. Every rendered timestamp has this form.
pub fn format_utc(date: &Timestamp) -> (out: String)
    ensures
        out@ == utc_text(*date),
{
    let mut out = String::new();
    date.push_utc(&mut out);
    assert(Seq::<char>::empty() + utc_text(*date) =~= utc_text(*date));
    out
}

/// One chapter: its heading, its body as a fragment of markup, and when it was published.
#[derive(Debug)]
pub struct ChapterTemplate {
    pub text: String,
    pub title: String,
    pub published_at: Timestamp,
}

/// What a chapter holds, as plain values.
pub ghost struct ChapterView {
    pub text: Seq<char>,
    pub title: Seq<char>,
    pub published_at: Timestamp,
}

impl View for ChapterTemplate {
    type V = ChapterView;

    open spec fn view(&self) -> ChapterView {
        ChapterView { text: self.text@, title: self.title@, published_at: self.published_at }
    }
}

/// What a list of chapters holds, as plain values.
pub open spec fn chapter_views(chapters: Seq<ChapterTemplate>) -> Seq<ChapterView> {
    chapters.map_values(|c: ChapterTemplate| c@)
}

/// The fixed text of the document of a chapter, in the pieces between which the title,
/// the time and the body stand.
pub const CHAPTER_OPEN: &'static str =
    "<?xml version=\"1.0\" encoding=\"UTF-8\"?>\n<html xmlns=\"http://www.w3.org/1999/xhtml\">\n<head>\n<title>";

pub const CHAPTER_HEADING: &'static str = "</title>\n</head>\n<body>\n<h1>";

pub const CHAPTER_TIME: &'static str = "</h1>\n<p><time datetime=\"";

pub const CHAPTER_TIME_TEXT: &'static str = "\">";

pub const CHAPTER_BODY: &'static str = "</time></p>\n";

pub const CHAPTER_CLOSE: &'static str = "\n</body>\n</html>\n";

/// The document of one chapter: the title escaped, in the head and as the heading; the
/// time of publication; then the body as it is.
pub open spec fn chapter_markup(c: ChapterView) -> Seq<char> {
    CHAPTER_OPEN@ + xml_escaped(c.title) + CHAPTER_HEADING@ + xml_escaped(c.title) + CHAPTER_TIME@
        + utc_text(c.published_at) + CHAPTER_TIME_TEXT@ + utc_text(c.published_at) + CHAPTER_BODY@
        + c.text + CHAPTER_CLOSE@
}

impl ChapterTemplate {
    /// The document of this chapter.
    pub fn render(&self) -> (out: String)
        ensures
            out@ == chapter_markup(self@),
    {
        let title = xml_escape(self.title.as_str());
        let published = format_utc(&self.published_at);
        let mut out = String::from_str(CHAPTER_OPEN);
        out.append(title.as_str());
        out.append(CHAPTER_HEADING);
        out.append(title.as_str());
        out.append(CHAPTER_TIME);
        out.append(published.as_str());
        out.append(CHAPTER_TIME_TEXT);
        out.append(published.as_str());
        out.append(CHAPTER_BODY);
        out.append(self.text.as_str());
        out.append(CHAPTER_CLOSE);
        out
    }
}

/// The name of the file of the chapter at position `number`, counted from 1, beside the
/// other chapters.
pub open spec fn chapter_file_name(number: nat) -> Seq<char> {
    CHAPTER_FILE_OPEN@ + decimal_text(number) + CHAPTER_FILE_CLOSE@
}

/// What stands before the position in the name of the file of a chapter, and in its
/// identifier.
pub const CHAPTER_FILE_OPEN: &'static str = "chapter_";

/// What stands behind the position in the name of the file of a chapter.
pub const CHAPTER_FILE_CLOSE: &'static str = ".html";

/// The identifier of the chapter at position `number`, counted from 1.
pub open spec fn chapter_id(number: nat) -> Seq<char> {
    CHAPTER_FILE_OPEN@ + decimal_text(number)
}

/// The identifier of the chapter at position `number`, counted from 1.
pub fn chapter_identifier(number: usize) -> (out: String)
    ensures
        out@ == chapter_id(number as nat),
{
    let mut out = String::from_str(CHAPTER_FILE_OPEN);
    push_decimal(&mut out, number);
    out
}

/// The table of contents of a book.
#[derive(Debug)]
pub struct Navigation<'a> {
    pub id: &'a str,
    pub title: &'a str,
    pub chapters: &'a [ChapterTemplate],
}

/// What a table of contents holds, as plain values.
pub ghost struct NavigationView {
    pub id: Seq<char>,
    pub title: Seq<char>,
    pub chapters: Seq<ChapterView>,
}

impl<'a> View for Navigation<'a> {
    type V = NavigationView;

    open spec fn view(&self) -> NavigationView {
        NavigationView {
            id: self.id@,
            title: self.title@,
            chapters: chapter_views(self.chapters@),
        }
    }
}

/// The fixed text of the table of contents, in the pieces between which identifier,
/// title and entries stand.
pub const NAV_OPEN: &'static str =
    "<?xml version=\"1.0\" encoding=\"UTF-8\"?>\n<html xmlns=\"http://www.w3.org/1999/xhtml\" xmlns:epub=\"http://www.idpf.org/2007/ops\">\n<head>\n<meta name=\"dc.identifier\" content=\"";

pub const NAV_TITLE: &'static str = "\"/>\n<title>";

pub const NAV_HEADING: &'static str = "</title>\n</head>\n<body>\n<nav epub:type=\"toc\" id=\"toc\">\n<h1>";

pub const NAV_LIST: &'static str = "</h1>\n<ol>\n";

pub const NAV_CLOSE: &'static str = "</ol>\n</nav>\n</body>\n</html>\n";

/// The fixed text of one entry of the table of contents, in the pieces between which
/// the file and the title of the chapter stand.
pub const NAV_ENTRY_OPEN: &'static str = "<li><a href=\"content/";

pub const NAV_ENTRY_LINK: &'static str = "\">";

pub const NAV_ENTRY_CLOSE: &'static str = "</a></li>\n";

/// The entry of the table of contents for the chapter at position `number`, counted
/// from 1: a link to the chapter's file, with the title escaped.
pub open spec fn nav_entry(number: nat, title: Seq<char>) -> Seq<char> {
    NAV_ENTRY_OPEN@ + chapter_file_name(number) + NAV_ENTRY_LINK@ + xml_escaped(title)
        + NAV_ENTRY_CLOSE@
}

/// The entries for the first `count` chapters, in their order.
pub open spec fn nav_entries(chapters: Seq<ChapterView>, count: nat) -> Seq<char>
    decreases count,
{
    if count == 0 {
        Seq::empty()
    } else {
        nav_entries(chapters, (count - 1) as nat) + nav_entry(count, chapters[count - 1].title)
    }
}

/// The table of contents: identifier and title escaped, then one entry for each chapter,
/// in the order of the chapters.
pub open spec fn navigation_markup(nav: NavigationView) -> Seq<char> {
    NAV_OPEN@ + xml_escaped(nav.id) + NAV_TITLE@ + xml_escaped(nav.title) + NAV_HEADING@
        + xml_escaped(nav.title) + NAV_LIST@ + nav_entries(nav.chapters, nav.chapters.len())
        + NAV_CLOSE@
}

fn render_nav_entry(number: usize, title: &str) -> (out: String)
    ensures
        out@ == nav_entry(number as nat, title@),
{
    let mut file = String::from_str(CHAPTER_FILE_OPEN);
    push_decimal(&mut file, number);
    file.append(CHAPTER_FILE_CLOSE);
    let escaped = xml_escape(title);
    let mut out = String::from_str(NAV_ENTRY_OPEN);
    out.append(file.as_str());
    out.append(NAV_ENTRY_LINK);
    out.append(escaped.as_str());
    out.append(NAV_ENTRY_CLOSE);
    out
}

impl<'a> Navigation<'a> {
    /// The document of the table of contents.
    pub fn render(&self) -> (out: String)
        ensures
            out@ == navigation_markup(self@),
    {
        let mut entries = String::new();
        let mut i: usize = 0;
        while i < self.chapters.len()
            invariant
                i <= self.chapters.len(),
                entries@ == nav_entries(chapter_views(self.chapters@), i as nat),
            decreases self.chapters.len() - i,
        {
            let entry = render_nav_entry(i + 1, self.chapters[i].title.as_str());
            entries.append(entry.as_str());
            i += 1;
        }
        let id = xml_escape(self.id);
        let title = xml_escape(self.title);
        let mut out = String::from_str(NAV_OPEN);
        out.append(id.as_str());
        out.append(NAV_TITLE);
        out.append(title.as_str());
        out.append(NAV_HEADING);
        out.append(title.as_str());
        out.append(NAV_LIST);
        out.append(entries.as_str());
        out.append(NAV_CLOSE);
        out
    }
}

/// The key and the value of each entry of a list of metadata, as plain values.
pub open spec fn meta_views(meta: Seq<(String, String)>) -> Seq<(Seq<char>, Seq<char>)> {
    meta.map_values(|e: (String, String)| (e.0@, e.1@))
}

/// Whether no key stands twice in `meta`.
pub open spec fn keys_unique(meta: Seq<(Seq<char>, Seq<char>)>) -> bool {
    forall|i: int, j: int| 0 <= i < j < meta.len() ==> meta[i].0 != meta[j].0
}

/// Whether `key` is none of the keys of `meta`.
pub open spec fn key_is_new(meta: Seq<(Seq<char>, Seq<char>)>, key: Seq<char>) -> bool {
    forall|i: int| 0 <= i < meta.len() ==> (#[trigger] meta[i]).0 != key
}

/// Free-form metadata of a book: keys with their values, each key once, in the order in
/// which the keys came.
#[derive(Debug)]
pub struct Metadata {
    entries: Vec<(String, String)>,
}

impl View for Metadata {
    type V = Seq<(Seq<char>, Seq<char>)>;

    closed spec fn view(&self) -> Seq<(Seq<char>, Seq<char>)> {
        meta_views(self.entries@)
    }
}

impl Metadata {
    #[verifier::type_invariant]
    spec fn each_key_once(&self) -> bool {
        keys_unique(meta_views(self.entries@))
    }

    /// Metadata without entries.
    pub fn new() -> (meta: Metadata)
        ensures
            meta@ == Seq::<(Seq<char>, Seq<char>)>::empty(),
    {
        let entries: Vec<(String, String)> = Vec::new();
        assert(meta_views(entries@) =~= Seq::<(Seq<char>, Seq<char>)>::empty());
        Metadata { entries }
    }

    /// The number of entries. No key stands twice among them.
    pub fn len(&self) -> (n: usize)
        ensures
            n == self@.len(),
            keys_unique(self@),
    {
        proof {
            use_type_invariant(self);
        }
        self.entries.len()
    }

    /// The key of the entry at `index`.
    pub fn key(&self, index: usize) -> (key: &str)
        requires
            index < self@.len(),
        ensures
            key@ == self@[index as int].0,
    {
        self.entries[index].0.as_str()
    }

    /// The value of the entry at `index`.
    pub fn value(&self, index: usize) -> (value: &str)
        requires
            index < self@.len(),
        ensures
            value@ == self@[index as int].1,
    {
        self.entries[index].1.as_str()
    }

    /// Where `key` stands among the keys, if it does.
    pub fn position(&self, key: &str) -> (r: Option<usize>)
        ensures
            match r {
                Some(i) => i < self@.len() && self@[i as int].0 == key@,
                None => key_is_new(self@, key@),
            },
    {
        let wanted = String::from_str(key);
        let mut i: usize = 0;
        while i < self.entries.len()
            invariant
                i <= self.entries@.len(),
                wanted@ == key@,
                forall|j: int| 0 <= j < i ==> (#[trigger] meta_views(self.entries@)[j]).0 != key@,
            decreases self.entries.len() - i,
        {
            if self.entries[i].0 == wanted {
                return Some(i);
            }
            i += 1;
        }
        None
    }

    /// Gives `key` the value `value`. A key that is there already keeps its place and hands
    /// out the value it had; a new key comes last.
    pub fn insert(&mut self, key: String, value: String) -> (r: Option<String>)
        ensures
            match r {
                Some(previous) => exists|i: int|
                    0 <= i < old(self)@.len() && old(self)@[i] == (key@, previous@) && final(self)@
                        == old(self)@.update(i, (key@, value@)),
                None => key_is_new(old(self)@, key@) && final(self)@ == old(self)@.push(
                    (key@, value@),
                ),
            },
            keys_unique(final(self)@),
    {
        proof {
            use_type_invariant(&*self);
        }
        let ghost before = meta_views(self.entries@);
        let found = self.position(key.as_str());
        let mut taken = Metadata::new();
        std::mem::swap(self, &mut taken);
        let Metadata { entries } = taken;
        let mut entries = entries;
        match found {
            Some(i) => {
                let previous = entries.remove(i);
                entries.insert(i, (key, value));
                proof {
                    assert(meta_views(entries@) =~= before.update(i as int, (key@, value@)));
                    assert(before[i as int] == (key@, previous.1@));
                }
                *self = Metadata { entries };
                Some(previous.1)
            },
            None => {
                entries.push((key, value));
                proof {
                    assert(meta_views(entries@) =~= before.push((key@, value@)));
                }
                *self = Metadata { entries };
                None
            },
        }
    }
}

/// What the package manifest is made from.
#[derive(Debug)]
pub struct BookContents<'a> {
    pub id: &'a str,
    pub title: &'a str,
    pub language: String,
    pub author: &'a str,
    pub modified: Timestamp,
    pub cover_image: Option<Vec<u8>>,
    pub meta: Metadata,
    pub chapters: &'a [ChapterTemplate],
}

/// What a manifest is made from, as plain values.
pub ghost struct ContentsView {
    pub id: Seq<char>,
    pub title: Seq<char>,
    pub language: Seq<char>,
    pub author: Seq<char>,
    pub modified: Timestamp,
    pub cover_image: Option<Seq<u8>>,
    pub meta: Seq<(Seq<char>, Seq<char>)>,
    pub chapters: Seq<ChapterView>,
}

impl<'a> View for BookContents<'a> {
    type V = ContentsView;

    open spec fn view(&self) -> ContentsView {
        ContentsView {
            id: self.id@,
            title: self.title@,
            language: self.language@,
            author: self.author@,
            modified: self.modified,
            cover_image: match self.cover_image {
                Some(bytes) => Some(bytes@),
                None => None,
            },
            meta: self.meta@,
            chapters: chapter_views(self.chapters@),
        }
    }
}

/// The fixed text of the manifest, in the pieces between which the fields of the book, the
/// metadata and the lines of the chapters stand.
pub const OPF_OPEN: &'static str =
    "<?xml version=\"1.0\" encoding=\"UTF-8\"?>\n<package xmlns=\"http://www.idpf.org/2007/opf\" version=\"3.0\" unique-identifier=\"book-id\" xml:lang=\"";

pub const OPF_IDENTIFIER: &'static str =
    "\">\n<metadata xmlns:dc=\"http://purl.org/dc/elements/1.1/\">\n<dc:identifier id=\"book-id\">";

pub const OPF_TITLE: &'static str = "</dc:identifier>\n<dc:title>";

pub const OPF_LANGUAGE: &'static str = "</dc:title>\n<dc:language>";

pub const OPF_CREATOR: &'static str = "</dc:language>\n<dc:creator>";

pub const OPF_MODIFIED: &'static str = "</dc:creator>\n<meta property=\"dcterms:modified\">";

pub const OPF_MODIFIED_CLOSE: &'static str = "</meta>\n";

pub const OPF_COVER_META: &'static str = "<meta name=\"cover\" content=\"cover-image\"/>\n";

pub const OPF_META_OPEN: &'static str = "<meta name=\"";

pub const OPF_META_CONTENT: &'static str = "\" content=\"";

pub const OPF_META_CLOSE: &'static str = "\"/>\n";

pub const OPF_MANIFEST: &'static str =
    "</metadata>\n<manifest>\n<item id=\"nav\" href=\"nav.xhtml\" media-type=\"application/xhtml+xml\" properties=\"nav\"/>\n<item id=\"cover\" href=\"content/cover.html\" media-type=\"application/xhtml+xml\"/>\n";

pub const OPF_COVER_ITEM: &'static str =
    "<item id=\"cover-image\" href=\"content/cover.jpg\" media-type=\"image/jpeg\" properties=\"cover-image\"/>\n";

pub const OPF_ITEM_OPEN: &'static str = "<item id=\"";

pub const OPF_ITEM_HREF: &'static str = "\" href=\"content/";

pub const OPF_ITEM_CLOSE: &'static str = "\" media-type=\"application/xhtml+xml\"/>\n";

pub const OPF_SPINE: &'static str = "</manifest>\n<spine>\n<itemref idref=\"cover\"/>\n";

pub const OPF_REF_OPEN: &'static str = "<itemref idref=\"";

pub const OPF_REF_CLOSE: &'static str = "\"/>\n";

pub const OPF_CLOSE: &'static str = "</spine>\n</package>\n";

/// The element of the manifest's metadata for one entry of the mapping, key and value
/// escaped.
pub open spec fn meta_element(key: Seq<char>, value: Seq<char>) -> Seq<char> {
    OPF_META_OPEN@ + xml_escaped(key) + OPF_META_CONTENT@ + xml_escaped(value) + OPF_META_CLOSE@
}

/// The elements for the first `count` entries of the mapping.
pub open spec fn meta_elements(meta: Seq<(Seq<char>, Seq<char>)>, count: nat) -> Seq<char>
    decreases count,
{
    if count == 0 {
        Seq::empty()
    } else {
        meta_elements(meta, (count - 1) as nat) + meta_element(
            meta[count - 1].0,
            meta[count - 1].1,
        )
    }
}

/// The item of the manifest for the chapter at position `number`, counted from 1.
pub open spec fn manifest_item(number: nat) -> Seq<char> {
    OPF_ITEM_OPEN@ + chapter_id(number) + OPF_ITEM_HREF@ + chapter_file_name(number)
        + OPF_ITEM_CLOSE@
}

/// The items of the manifest for the chapters at positions 1 to `count`.
pub open spec fn manifest_items(count: nat) -> Seq<char>
    decreases count,
{
    if count == 0 {
        Seq::empty()
    } else {
        manifest_items((count - 1) as nat) + manifest_item(count)
    }
}

/// The entry of the reading order for the chapter at position `number`, counted from 1.
pub open spec fn spine_ref(number: nat) -> Seq<char> {
    OPF_REF_OPEN@ + chapter_id(number) + OPF_REF_CLOSE@
}

/// The entries of the reading order for the chapters at positions 1 to `count`.
pub open spec fn spine_refs(count: nat) -> Seq<char>
    decreases count,
{
    if count == 0 {
        Seq::empty()
    } else {
        spine_refs((count - 1) as nat) + spine_ref(count)
    }
}

/// What the manifest says of the cover image: nothing where there is none.
pub open spec fn cover_part(present: bool, part: Seq<char>) -> Seq<char> {
    if present {
        part
    } else {
        Seq::empty()
    }
}

/// The package manifest: the fixed fields of the metadata (identifier, title, language,
/// creator, time of modification), the reference to the cover image where there is one, one
/// element for each entry of the mapping; then the files of the package and the reading
/// order, each with one line for each chapter, in the order of the chapters.
pub open spec fn manifest_markup(c: ContentsView) -> Seq<char> {
    OPF_OPEN@ + xml_escaped(c.language) + OPF_IDENTIFIER@ + xml_escaped(c.id) + OPF_TITLE@
        + xml_escaped(c.title) + OPF_LANGUAGE@ + xml_escaped(c.language) + OPF_CREATOR@
        + xml_escaped(c.author) + OPF_MODIFIED@ + utc_text(c.modified) + OPF_MODIFIED_CLOSE@
        + cover_part(c.cover_image is Some, OPF_COVER_META@) + meta_elements(c.meta, c.meta.len())
        + OPF_MANIFEST@ + cover_part(c.cover_image is Some, OPF_COVER_ITEM@) + manifest_items(
        c.chapters.len(),
    ) + OPF_SPINE@ + spine_refs(c.chapters.len()) + OPF_CLOSE@
}

fn render_meta_element(key: &str, value: &str) -> (out: String)
    ensures
        out@ == meta_element(key@, value@),
{
    let k = xml_escape(key);
    let v = xml_escape(value);
    let mut out = String::from_str(OPF_META_OPEN);
    out.append(k.as_str());
    out.append(OPF_META_CONTENT);
    out.append(v.as_str());
    out.append(OPF_META_CLOSE);
    out
}

fn render_manifest_item(number: usize) -> (out: String)
    ensures
        out@ == manifest_item(number as nat),
{
    let id = chapter_identifier(number);
    let mut file = String::from_str(CHAPTER_FILE_OPEN);
    push_decimal(&mut file, number);
    file.append(CHAPTER_FILE_CLOSE);
    let mut out = String::from_str(OPF_ITEM_OPEN);
    out.append(id.as_str());
    out.append(OPF_ITEM_HREF);
    out.append(file.as_str());
    out.append(OPF_ITEM_CLOSE);
    out
}

fn render_spine_ref(number: usize) -> (out: String)
    ensures
        out@ == spine_ref(number as nat),
{
    let id = chapter_identifier(number);
    let mut out = String::from_str(OPF_REF_OPEN);
    out.append(id.as_str());
    out.append(OPF_REF_CLOSE);
    out
}

impl<'a> BookContents<'a> {
    /// The document of the package manifest.
    pub fn render(&self) -> (out: String)
        ensures
            out@ == manifest_markup(self@),
    {
        let mut metas = String::new();
        let mut i: usize = 0;
        while i < self.meta.len()
            invariant
                i <= self.meta@.len(),
                metas@ == meta_elements(self.meta@, i as nat),
            decreases self.meta@.len() - i,
        {
            let element = render_meta_element(self.meta.key(i), self.meta.value(i));
            metas.append(element.as_str());
            i += 1;
        }
        let mut items = String::new();
        let mut refs = String::new();
        let mut n: usize = 0;
        while n < self.chapters.len()
            invariant
                n <= self.chapters.len(),
                items@ == manifest_items(n as nat),
                refs@ == spine_refs(n as nat),
            decreases self.chapters.len() - n,
        {
            let item = render_manifest_item(n + 1);
            items.append(item.as_str());
            let entry = render_spine_ref(n + 1);
            refs.append(entry.as_str());
            n += 1;
        }
        let language = xml_escape(self.language.as_str());
        let id = xml_escape(self.id);
        let title = xml_escape(self.title);
        let author = xml_escape(self.author);
        let modified = format_utc(&self.modified);
        let has_cover = self.cover_image.is_some();
        let mut out = String::from_str(OPF_OPEN);
        out.append(language.as_str());
        out.append(OPF_IDENTIFIER);
        out.append(id.as_str());
        out.append(OPF_TITLE);
        out.append(title.as_str());
        out.append(OPF_LANGUAGE);
        out.append(language.as_str());
        out.append(OPF_CREATOR);
        out.append(author.as_str());
        out.append(OPF_MODIFIED);
        out.append(modified.as_str());
        out.append(OPF_MODIFIED_CLOSE);
        if has_cover {
            out.append(OPF_COVER_META);
        }
        assert(out@ =~= OPF_OPEN@ + xml_escaped(self@.language) + OPF_IDENTIFIER@ + xml_escaped(
            self@.id,
        ) + OPF_TITLE@ + xml_escaped(self@.title) + OPF_LANGUAGE@ + xml_escaped(self@.language)
            + OPF_CREATOR@ + xml_escaped(self@.author) + OPF_MODIFIED@ + utc_text(self@.modified)
            + OPF_MODIFIED_CLOSE@ + cover_part(self@.cover_image is Some, OPF_COVER_META@));
        out.append(metas.as_str());
        out.append(OPF_MANIFEST);
        let ghost before = out@;
        if has_cover {
            out.append(OPF_COVER_ITEM);
        }
        assert(out@ =~= before + cover_part(self@.cover_image is Some, OPF_COVER_ITEM@));
        out.append(items.as_str());
        out.append(OPF_SPINE);
        out.append(refs.as_str());
        out.append(OPF_CLOSE);
        out
    }
}

} // verus!
