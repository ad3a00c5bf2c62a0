//! The package of a book: which files it holds, in which order, and the archive that
//! holds them. The archive itself is written by the `zip` crate, in memory.

use vstd::prelude::*;
use vstd::string::StrSliceExecFns;
use vstd::string::StringExecFns;
use vstd::utf8::encode_utf8;
use crate::template::{
    chapter_file_name, chapter_markup, manifest_markup, navigation_markup, BookContents,
    ChapterView, ContentsView, Navigation, NavigationView, CHAPTER_FILE_CLOSE, CHAPTER_FILE_OPEN,
};
use crate::text::{decimal_text, lemma_decimal_text_injective, push_decimal};

verus! {

/// One file of a package: its path in the archive and its bytes.
#[derive(Debug)]
pub struct ArchiveEntry {
    pub name: String,
    pub data: Vec<u8>,
}

/// Path and bytes of each entry, as plain values.
pub open spec fn entry_views(entries: Seq<ArchiveEntry>) -> Seq<(Seq<char>, Seq<u8>)> {
    entries.map_values(|e: ArchiveEntry| (e.name@, e.data@))
}

/// Why no package was made.
#[derive(Clone, Copy, Debug, PartialEq, Eq)]
pub enum PackagingError {
    /// The table of contents and the manifest do not list the same number of chapters.
    ChapterCount,
    /// The file at this position holds more bytes than one entry of an archive can.
    TooLarge { index: usize },
}

/// The path of the type identifier.
pub const MIMETYPE_NAME: &'static str = "mimetype";

/// The type identifier: the media type of the package.
pub const MIMETYPE: &'static str = "application/epub+zip";

/// The path of the container descriptor.
pub const CONTAINER_NAME: &'static str = "META-INF/container.xml";

/// The container descriptor: it says where the manifest stands.
pub const CONTAINER: &'static str =
    "<?xml version=\"1.0\" encoding=\"UTF-8\"?>\n<container version=\"1.0\" xmlns=\"urn:oasis:names:tc:opendocument:xmlns:container\">\n<rootfiles>\n<rootfile full-path=\"OEBPS/content.opf\" media-type=\"application/oebps-package+xml\"/>\n</rootfiles>\n</container>\n";

/// The path of the table of contents.
pub const NAVIGATION_NAME: &'static str = "OEBPS/nav.xhtml";

/// The path of the manifest.
pub const MANIFEST_NAME: &'static str = "OEBPS/content.opf";

/// The directory of the chapters and the cover.
pub const CONTENT_DIRECTORY: &'static str = "OEBPS/content/";

/// The path of the cover page.
pub const COVER_PAGE_NAME: &'static str = "OEBPS/content/cover.html";

/// The cover page: a document that shows the cover image.
pub const COVER_PAGE: &'static str =
    "<?xml version=\"1.0\" encoding=\"UTF-8\"?>\n<html xmlns=\"http://www.w3.org/1999/xhtml\">\n<head>\n<title>Cover</title>\n</head>\n<body>\n<img src=\"cover.jpg\" alt=\"Cover\"/>\n</body>\n</html>\n";

/// The path of the cover image.
pub const COVER_IMAGE_NAME: &'static str = "OEBPS/content/cover.jpg";

/// The entry of the chapter at position `number`, counted from 1: its file, named by the
/// position, and its document.
pub open spec fn chapter_entry(number: nat, chapter: ChapterView) -> (Seq<char>, Seq<u8>) {
    (chapter_path(number), encode_utf8(chapter_markup(chapter)))
}

/// The entries of the first `count` chapters, in their order.
pub open spec fn chapter_entries(chapters: Seq<ChapterView>, count: nat) -> Seq<
    (Seq<char>, Seq<u8>),
>
    decreases count,
{
    if count == 0 {
        Seq::empty()
    } else {
        chapter_entries(chapters, (count - 1) as nat).push(
            chapter_entry(count, chapters[count - 1]),
        )
    }
}

/// The bytes of the cover image; none where the book has no cover.
pub open spec fn cover_bytes(cover: Option<Seq<u8>>) -> Seq<u8> {
    match cover {
        Some(bytes) => bytes,
        None => Seq::empty(),
    }
}

/// The files of a package, in the order in which they stand in the archive: the type
/// identifier, the container descriptor, the table of contents, the manifest, one document
/// for each chapter in the order of the chapters, the cover page, the cover image.
pub open spec fn package_listing(nav: NavigationView, contents: ContentsView) -> Seq<
    (Seq<char>, Seq<u8>),
> {
    seq![
        (MIMETYPE_NAME@, encode_utf8(MIMETYPE@)),
        (CONTAINER_NAME@, encode_utf8(CONTAINER@)),
        (NAVIGATION_NAME@, encode_utf8(navigation_markup(nav))),
        (MANIFEST_NAME@, encode_utf8(manifest_markup(contents))),
    ] + chapter_entries(nav.chapters, nav.chapters.len()) + seq![
        (COVER_PAGE_NAME@, encode_utf8(COVER_PAGE@)),
        (COVER_IMAGE_NAME@, cover_bytes(contents.cover_image)),
    ]
}

/// The entries of the chapters are as many as the chapters, and the entry at each position
/// holds the document of the chapter at that position under the name of that position,
/// counted from 1.
pub proof fn lemma_chapter_entries_by_position(chapters: Seq<ChapterView>, count: nat)
    requires
        count <= chapters.len(),
    ensures
        chapter_entries(chapters, count).len() == count,
        forall|i: int|
            0 <= i < count ==> #[trigger] chapter_entries(chapters, count)[i] == chapter_entry(
                (i + 1) as nat,
                chapters[i],
            ),
    decreases count,
{
    if count > 0 {
        lemma_chapter_entries_by_position(chapters, (count - 1) as nat);
    }
}

/// A package holds six files besides one for each chapter: the type identifier comes
/// first, then the container descriptor, the table of contents and the manifest; the
/// chapters follow in their order; the cover page and the cover image come last, and the
/// cover image is empty where the book has none.
pub proof fn lemma_package_listing_layout(nav: NavigationView, contents: ContentsView)
    ensures
        package_listing(nav, contents).len() == nav.chapters.len() + 6,
        package_listing(nav, contents)[0] == (MIMETYPE_NAME@, encode_utf8(MIMETYPE@)),
        package_listing(nav, contents)[1] == (CONTAINER_NAME@, encode_utf8(CONTAINER@)),
        package_listing(nav, contents)[2] == (
            NAVIGATION_NAME@,
            encode_utf8(navigation_markup(nav)),
        ),
        package_listing(nav, contents)[3] == (
            MANIFEST_NAME@,
            encode_utf8(manifest_markup(contents)),
        ),
        forall|i: int|
            0 <= i < nav.chapters.len() ==> #[trigger] package_listing(nav, contents)[4 + i]
                == chapter_entry((i + 1) as nat, nav.chapters[i]),
        package_listing(nav, contents)[nav.chapters.len() as int + 4] == (
            COVER_PAGE_NAME@,
            encode_utf8(COVER_PAGE@),
        ),
        package_listing(nav, contents)[nav.chapters.len() as int + 5] == (
            COVER_IMAGE_NAME@,
            cover_bytes(contents.cover_image),
        ),
        contents.cover_image is None ==> package_listing(nav, contents).last().1 == Seq::<
            u8,
        >::empty(),
{
    lemma_chapter_entries_by_position(nav.chapters, nav.chapters.len());
}

/// The path of the file of the chapter at position `number`, counted from 1.
pub open spec fn chapter_path(number: nat) -> Seq<char> {
    CONTENT_DIRECTORY@ + chapter_file_name(number)
}

/// Chapters at different positions have files with different paths.
pub proof fn lemma_chapter_paths_differ(a: nat, b: nat)
    requires
        a != b,
    ensures
        chapter_path(a) != chapter_path(b),
{
    let head = CONTENT_DIRECTORY@ + CHAPTER_FILE_OPEN@;
    let tail = CHAPTER_FILE_CLOSE@;
    assert(chapter_path(a) =~= head + decimal_text(a) + tail);
    assert(chapter_path(b) =~= head + decimal_text(b) + tail);
    if chapter_path(a) == chapter_path(b) {
        let x = decimal_text(a);
        let y = decimal_text(b);
        assert(x.len() == y.len()) by {
            assert((head + x + tail).len() == (head + y + tail).len());
        }
        assert forall|i: int| 0 <= i < x.len() implies x[i] == y[i] by {
            assert((head + x + tail)[head.len() + i] == x[i]);
            assert((head + y + tail)[head.len() + i] == y[i]);
        }
        assert(x =~= y);
        lemma_decimal_text_injective(a, b);
    }
}

/// No file of a chapter has the path of one of the six other files of a package.
pub proof fn lemma_chapter_path_is_its_own(number: nat)
    ensures
        chapter_path(number) != MIMETYPE_NAME@,
        chapter_path(number) != CONTAINER_NAME@,
        chapter_path(number) != NAVIGATION_NAME@,
        chapter_path(number) != MANIFEST_NAME@,
        chapter_path(number) != COVER_PAGE_NAME@,
        chapter_path(number) != COVER_IMAGE_NAME@,
{
    reveal_strlit("mimetype");
    reveal_strlit("META-INF/container.xml");
    reveal_strlit("OEBPS/nav.xhtml");
    reveal_strlit("OEBPS/content.opf");
    reveal_strlit("OEBPS/content/");
    reveal_strlit("OEBPS/content/cover.html");
    reveal_strlit("OEBPS/content/cover.jpg");
    reveal_strlit("chapter_");
    let path = chapter_path(number);
    assert(path.len() >= 22);
    assert(path[0] == 'O');
    assert(path[6] == 'c');
    assert(path[13] == '/');
    assert(path[15] == CHAPTER_FILE_OPEN@[1]);
    assert(path[15] == 'h');
}

/// The six files of a package that belong to no chapter have six different paths.
pub proof fn lemma_fixed_paths_differ()
    ensures
        MIMETYPE_NAME@ != CONTAINER_NAME@,
        MIMETYPE_NAME@ != NAVIGATION_NAME@,
        MIMETYPE_NAME@ != MANIFEST_NAME@,
        MIMETYPE_NAME@ != COVER_PAGE_NAME@,
        MIMETYPE_NAME@ != COVER_IMAGE_NAME@,
        CONTAINER_NAME@ != NAVIGATION_NAME@,
        CONTAINER_NAME@ != MANIFEST_NAME@,
        CONTAINER_NAME@ != COVER_PAGE_NAME@,
        CONTAINER_NAME@ != COVER_IMAGE_NAME@,
        NAVIGATION_NAME@ != MANIFEST_NAME@,
        NAVIGATION_NAME@ != COVER_PAGE_NAME@,
        NAVIGATION_NAME@ != COVER_IMAGE_NAME@,
        MANIFEST_NAME@ != COVER_PAGE_NAME@,
        MANIFEST_NAME@ != COVER_IMAGE_NAME@,
        COVER_PAGE_NAME@ != COVER_IMAGE_NAME@,
{
    reveal_strlit("mimetype");
    reveal_strlit("META-INF/container.xml");
    reveal_strlit("OEBPS/nav.xhtml");
    reveal_strlit("OEBPS/content.opf");
    reveal_strlit("OEBPS/content/cover.html");
    reveal_strlit("OEBPS/content/cover.jpg");
    assert(MIMETYPE_NAME@.len() == 8);
    assert(CONTAINER_NAME@.len() == 22);
    assert(NAVIGATION_NAME@.len() == 15);
    assert(MANIFEST_NAME@.len() == 17);
    assert(COVER_PAGE_NAME@.len() == 24);
    assert(COVER_IMAGE_NAME@.len() == 23);
}

/// No two files of a package have the same path.
pub proof fn lemma_package_paths_differ(nav: NavigationView, contents: ContentsView)
    ensures
        forall|i: int, j: int|
            0 <= i < j < package_listing(nav, contents).len() ==> package_listing(
                nav,
                contents,
            )[i].0 != package_listing(nav, contents)[j].0,
{
    let listing = package_listing(nav, contents);
    let n = nav.chapters.len() as int;
    lemma_package_listing_layout(nav, contents);
    lemma_fixed_paths_differ();
    assert forall|i: int, j: int| 0 <= i < j < listing.len() implies listing[i].0
        != listing[j].0 by {
        if 4 <= i < 4 + n {
            assert(listing[4 + (i - 4)] == chapter_entry((i - 3) as nat, nav.chapters[i - 4]));
            lemma_chapter_path_is_its_own((i - 3) as nat);
        }
        if 4 <= j < 4 + n {
            assert(listing[4 + (j - 4)] == chapter_entry((j - 3) as nat, nav.chapters[j - 4]));
            lemma_chapter_path_is_its_own((j - 3) as nat);
        }
        if 4 <= i < 4 + n && 4 <= j < 4 + n {
            lemma_chapter_paths_differ((i - 3) as nat, (j - 3) as nat);
        }
    }
}

fn text_entry(name: &str, text: &str) -> (e: ArchiveEntry)
    ensures
        e.name@ == name@,
        e.data@ == encode_utf8(text@),
{
    ArchiveEntry { name: String::from_str(name), data: text.as_bytes_vec() }
}

/// The files of the package of a book, in the order in which they stand in the archive.
pub fn package_entries(nav: &Navigation, contents: &BookContents) -> (entries: Vec<ArchiveEntry>)
    ensures
        entry_views(entries@) == package_listing(nav@, contents@),
{
    let mut entries: Vec<ArchiveEntry> = Vec::new();
    entries.push(text_entry(MIMETYPE_NAME, MIMETYPE));
    entries.push(text_entry(CONTAINER_NAME, CONTAINER));
    let navigation = nav.render();
    entries.push(text_entry(NAVIGATION_NAME, navigation.as_str()));
    let manifest = contents.render();
    entries.push(text_entry(MANIFEST_NAME, manifest.as_str()));
    let ghost head = entry_views(entries@);
    assert(head =~= seq![
        (MIMETYPE_NAME@, encode_utf8(MIMETYPE@)),
        (CONTAINER_NAME@, encode_utf8(CONTAINER@)),
        (NAVIGATION_NAME@, encode_utf8(navigation_markup(nav@))),
        (MANIFEST_NAME@, encode_utf8(manifest_markup(contents@))),
    ]);
    let mut i: usize = 0;
    while i < nav.chapters.len()
        invariant
            i <= nav.chapters.len(),
            entry_views(entries@) == head + chapter_entries(nav@.chapters, i as nat),
        decreases nav.chapters.len() - i,
    {
        let mut name = String::from_str(CONTENT_DIRECTORY);
        let mut file = String::from_str(CHAPTER_FILE_OPEN);
        push_decimal(&mut file, i + 1);
        file.append(CHAPTER_FILE_CLOSE);
        name.append(file.as_str());
        let document = nav.chapters[i].render();
        let ghost before = entry_views(entries@);
        entries.push(text_entry(name.as_str(), document.as_str()));
        proof {
            let added = chapter_entry((i + 1) as nat, nav@.chapters[i as int]);
            assert(entry_views(entries@) =~= before.push(added));
            assert(before.push(added) =~= head + chapter_entries(nav@.chapters, (i + 1) as nat));
        }
        i += 1;
    }
    let ghost middle = entry_views(entries@);
    entries.push(text_entry(COVER_PAGE_NAME, COVER_PAGE));
    let data: Vec<u8> = match &contents.cover_image {
        Some(bytes) => bytes.clone(),
        None => Vec::new(),
    };
    entries.push(ArchiveEntry { name: String::from_str(COVER_IMAGE_NAME), data });
    proof {
        assert(entry_views(entries@) =~= middle + seq![
            (COVER_PAGE_NAME@, encode_utf8(COVER_PAGE@)),
            (COVER_IMAGE_NAME@, cover_bytes(contents@.cover_image)),
        ]);
    }
    entries
}

/// The error of the `zip` crate, as a value that is handed on unread.
#[verifier::external_type_specification]
#[verifier::external_body]
pub struct ExZipError(zip::result::ZipError);

/// An archive that is being written, in memory: a `zip::ZipWriter` over a cursor. Nothing
/// is known of what is inside but what the functions below say of `archive_entries`.
#[verifier::external_body]
pub struct Archive {
    writer: zip::ZipWriter<std::io::Cursor<Vec<u8>>>,
}

/// The code of the method that keeps the bytes of an entry as they are, uncompressed.
pub const STORED: u16 = 0;

/// The most bytes that one entry of an archive can hold.
pub const ENTRY_LIMIT: usize = 0xffff_ffff;

/// The entries that were handed to the archive so far, in their order: the path of each,
/// the code of its method, and the bytes written to it.
pub uninterp spec fn archive_entries(archive: Archive) -> Seq<(Seq<char>, u16, Seq<u8>)>;

/// The bytes of the archive in which `zip::ZipWriter` has put these entries one after the
/// other, each by its method and stamped with the earliest time the format knows, and which
/// it has then finished.
pub uninterp spec fn archive_image(entries: Seq<(Seq<char>, u16, Seq<u8>)>) -> Seq<u8>;

/// `zip::ZipWriter::new` over an empty buffer: an archive without entries.
#[verifier::external_body]
fn archive_new() -> (archive: Archive)
    ensures
        archive_entries(archive) == Seq::<(Seq<char>, u16, Seq<u8>)>::empty(),
{
    Archive { writer: zip::ZipWriter::new(std::io::Cursor::new(Vec::new())) }
}

/// `zip::ZipWriter::start_file` with the method of the code `method`, as
/// `zip::CompressionMethod::from_u16` reads it, and with the time stamp that
/// `zip::DateTime::default` gives. Where it succeeds, the archive has one more entry, with
/// this path and method and no bytes yet. Over a buffer in memory it succeeds for the
/// method that stores.
#[verifier::external_body]
#[allow(deprecated)]
fn archive_start_file(archive: Archive, name: &str, method: u16) -> (r: Result<
    Archive,
    zip::result::ZipError,
>)
    ensures
        method == STORED ==> r is Ok,
        r matches Ok(next) ==> archive_entries(next) == archive_entries(archive).push(
            (name@, method, Seq::<u8>::empty()),
        ),
{
    let mut archive = archive;
    let options = zip::write::FileOptions::default()
        .compression_method(zip::CompressionMethod::from_u16(method))
        .last_modified_time(zip::DateTime::default());
    match archive.writer.start_file(name, options) {
        Ok(()) => Ok(archive),
        Err(e) => Err(e),
    }
}

/// `write_all` of `zip::ZipWriter`: where it succeeds, the bytes stand at the end of the
/// entry that was started last. Over a buffer in memory it succeeds as long as the entry
/// stays within the limit of one entry.
#[verifier::external_body]
fn archive_write(archive: Archive, data: &[u8]) -> (r: Result<Archive, zip::result::ZipError>)
    requires
        archive_entries(archive).len() > 0,
    ensures
        archive_entries(archive).last().2.len() + data@.len() <= ENTRY_LIMIT ==> r is Ok,
        r matches Ok(next) ==> archive_entries(next) == archive_entries(archive).drop_last().push(
            (
                archive_entries(archive).last().0,
                archive_entries(archive).last().1,
                archive_entries(archive).last().2 + data@,
            ),
        ),
{
    let mut archive = archive;
    match std::io::Write::write_all(&mut archive.writer, data) {
        Ok(()) => Ok(archive),
        Err(e) => Err(zip::result::ZipError::from(e)),
    }
}

/// `zip::ZipWriter::finish`: the bytes of the finished archive. Over a buffer in memory it
/// succeeds.
#[verifier::external_body]
fn archive_finish(archive: Archive) -> (r: Result<Vec<u8>, zip::result::ZipError>)
    ensures
        r is Ok,
        r matches Ok(bytes) ==> bytes@ == archive_image(archive_entries(archive)),
{
    let mut archive = archive;
    match archive.writer.finish() {
        Ok(cursor) => Ok(cursor.into_inner()),
        Err(e) => Err(e),
    }
}

/// The entries as they stand in an archive that stores each of them uncompressed.
pub open spec fn stored(entries: Seq<(Seq<char>, Seq<u8>)>) -> Seq<(Seq<char>, u16, Seq<u8>)> {
    entries.map_values(|e: (Seq<char>, Seq<u8>)| (e.0, STORED, e.1))
}

/// The position of the first of the first `count` entries that holds more bytes than one
/// entry of an archive can; `None` where each of them fits.
pub open spec fn first_oversized(entries: Seq<(Seq<char>, Seq<u8>)>, count: nat) -> Option<
    int,
>
    decreases count,
{
    if count == 0 {
        None
    } else {
        match first_oversized(entries, (count - 1) as nat) {
            Some(i) => Some(i),
            None => if entries[count - 1].1.len() > ENTRY_LIMIT {
                Some(count - 1)
            } else {
                None
            },
        }
    }
}

/// What becomes of a list of entries that is to be packed: the error of the first entry
/// that is too large, or else the archive that stores them all, in their order.
pub open spec fn packed(entries: Seq<(Seq<char>, Seq<u8>)>) -> Result<Seq<u8>, PackagingError> {
    match first_oversized(entries, entries.len()) {
        Some(index) => Err(PackagingError::TooLarge { index: index as usize }),
        None => Ok(archive_image(stored(entries))),
    }
}

/// Whether `r` is what `expected` says: the same bytes, or the same error.
pub open spec fn is_packed(r: Result<Vec<u8>, PackagingError>, expected: Result<
    Seq<u8>,
    PackagingError,
>) -> bool {
    match r {
        Ok(bytes) => expected == Ok::<Seq<u8>, PackagingError>(bytes@),
        Err(e) => expected == Err::<Seq<u8>, PackagingError>(e),
    }
}

proof fn lemma_first_oversized_stays(entries: Seq<(Seq<char>, Seq<u8>)>, found: nat, count: nat)
    requires
        found <= count,
        first_oversized(entries, found) is Some,
    ensures
        first_oversized(entries, count) == first_oversized(entries, found),
    decreases count,
{
    if found < count {
        lemma_first_oversized_stays(entries, found, (count - 1) as nat);
    }
}

/// Where the first oversized entry stands, no entry before it is oversized, and it is;
/// where there is none, every entry fits.
pub proof fn lemma_first_oversized_is_first(entries: Seq<(Seq<char>, Seq<u8>)>, count: nat)
    requires
        count <= entries.len(),
    ensures
        match first_oversized(entries, count) {
            Some(i) => {
                &&& 0 <= i < count
                &&& entries[i].1.len() > ENTRY_LIMIT
                &&& forall|j: int| 0 <= j < i ==> (#[trigger] entries[j]).1.len() <= ENTRY_LIMIT
            },
            None => forall|j: int|
                0 <= j < count ==> (#[trigger] entries[j]).1.len() <= ENTRY_LIMIT,
        },
    decreases count,
{
    if count > 0 {
        lemma_first_oversized_is_first(entries, (count - 1) as nat);
    }
}

/// In the archive of a package every file is stored uncompressed, the type identifier
/// first.
pub proof fn lemma_package_is_stored(nav: NavigationView, contents: ContentsView)
    ensures
        stored(package_listing(nav, contents)).len() == nav.chapters.len() + 6,
        forall|k: int|
            0 <= k < stored(package_listing(nav, contents)).len() ==> (#[trigger] stored(
                package_listing(nav, contents),
            )[k]).1 == STORED,
        stored(package_listing(nav, contents))[0] == (
            MIMETYPE_NAME@,
            STORED,
            encode_utf8(MIMETYPE@),
        ),
{
    lemma_package_listing_layout(nav, contents);
}

/// The archive that holds `entries`, in their order, each stored without compression. An
/// entry of more bytes than one entry of an archive can hold is refused, the first such
/// entry by its position; every other list of entries gives its archive.
pub fn archive_of(entries: &Vec<ArchiveEntry>) -> (r: Result<Vec<u8>, PackagingError>)
    ensures
        is_packed(r, packed(entry_views(entries@))),
{
    let ghost views = entry_views(entries@);
    let mut archive = archive_new();
    let mut i: usize = 0;
    proof {
        assert(stored(views).take(0) =~= Seq::<(Seq<char>, u16, Seq<u8>)>::empty());
    }
    while i < entries.len()
        invariant
            i <= entries.len(),
            views == entry_views(entries@),
            first_oversized(views, i as nat) is None,
            archive_entries(archive) == stored(views).take(i as int),
        decreases entries.len() - i,
    {
        let ghost before = archive_entries(archive);
        if entries[i].data.len() > ENTRY_LIMIT {
            proof {
                lemma_first_oversized_stays(views, (i + 1) as nat, views.len());
            }
            return Err(PackagingError::TooLarge { index: i });
        }
        let started = match archive_start_file(archive, entries[i].name.as_str(), STORED) {
            Ok(next) => next,
            Err(_) => unreached(),
        };
        proof {
            assert(before.push((views[i as int].0, STORED, Seq::<u8>::empty())).last().2.len()
                == 0);
        }
        let written = match archive_write(started, entries[i].data.as_slice()) {
            Ok(next) => next,
            Err(_) => unreached(),
        };
        archive = written;
        proof {
            assert(Seq::<u8>::empty() + entries@[i as int].data@ =~= entries@[i as int].data@);
            assert(before.push((views[i as int].0, STORED, Seq::<u8>::empty())).drop_last()
                =~= before);
            assert(stored(views).take(i + 1) =~= stored(views).take(i as int).push(
                stored(views)[i as int],
            ));
        }
        i += 1;
    }
    proof {
        assert(stored(views).take(i as int) =~= stored(views));
    }
    match archive_finish(archive) {
        Ok(bytes) => Ok(bytes),
        Err(_) => unreached(),
    }
}

/// What becomes of the package of a book: where the table of contents and the manifest
/// do not list the same number of chapters, that error; else what becomes of the files of
/// `package_listing` when they are packed.
pub open spec fn package_outcome(nav: NavigationView, contents: ContentsView) -> Result<
    Seq<u8>,
    PackagingError,
> {
    if nav.chapters.len() != contents.chapters.len() {
        Err(PackagingError::ChapterCount)
    } else {
        packed(package_listing(nav, contents))
    }
}

/// The package of a book as one archive: the files of `package_listing`, in that order,
/// each stored without compression.
///
/// The table of contents and the manifest must list the same number of chapters: the files
/// of the chapters are named by position, and the manifest refers to them by these names.
/// A book of which every file fits into one entry of an archive gives its package.
pub fn write_epub(nav: &Navigation, contents: &BookContents) -> (r: Result<
    Vec<u8>,
    PackagingError,
>)
    ensures
        is_packed(r, package_outcome(nav@, contents@)),
{
    if nav.chapters.len() != contents.chapters.len() {
        return Err(PackagingError::ChapterCount);
    }
    let entries = package_entries(nav, contents);
    archive_of(&entries)
}

/// A package with the same number of chapters on both sides, and no file beyond the limit
/// of one entry, is made: the archive that stores the files of `package_listing`.
pub proof fn lemma_package_is_made(nav: NavigationView, contents: ContentsView)
    requires
        nav.chapters.len() == contents.chapters.len(),
        forall|k: int|
            0 <= k < package_listing(nav, contents).len() ==> (#[trigger] package_listing(
                nav,
                contents,
            )[k]).1.len() <= ENTRY_LIMIT,
    ensures
        package_outcome(nav, contents) == Ok::<Seq<u8>, PackagingError>(
            archive_image(stored(package_listing(nav, contents))),
        ),
{
    let listing = package_listing(nav, contents);
    lemma_first_oversized_is_first(listing, listing.len());
}

/// The path of the file that holds the package of a book: in the directory `output`, named
/// by author and title.
pub open spec fn output_path(author: Seq<char>, title: Seq<char>) -> Seq<char> {
    OUTPUT_DIRECTORY@ + author + OUTPUT_SEPARATOR@ + title + OUTPUT_EXTENSION@
}

/// The directory in which packages are kept.
pub const OUTPUT_DIRECTORY: &'static str = "output/";

/// What stands between author and title in the name of a package.
pub const OUTPUT_SEPARATOR: &'static str = " - ";

/// The extension of the name of a package.
pub const OUTPUT_EXTENSION: &'static str = ".epub";

/// The path of the file that holds the package of a book.
pub fn output_file_name(author: &str, title: &str) -> (path: String)
    ensures
        path@ == output_path(author@, title@),
{
    let mut path = String::from_str(OUTPUT_DIRECTORY);
    path.append(author);
    path.append(OUTPUT_SEPARATOR);
    path.append(title);
    path.append(OUTPUT_EXTENSION);
    path
}

} // verus!
