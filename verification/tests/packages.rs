use std::io::Read;
use webnovel_epub::package::{
    archive_of, output_file_name, package_entries, write_epub, ArchiveEntry, PackagingError,
    ENTRY_LIMIT, STORED,
};
use webnovel_epub::template::{BookContents, ChapterTemplate, Metadata, Navigation};
use webnovel_epub::timestamp::Timestamp;

fn chapter(title: &str, text: &str) -> ChapterTemplate {
    ChapterTemplate {
        text: text.to_string(),
        title: title.to_string(),
        published_at: Timestamp::new(2023, 1, 2, 3, 4, 5).unwrap(),
    }
}

fn contents<'a>(chapters: &'a [ChapterTemplate], cover: Option<Vec<u8>>) -> BookContents<'a> {
    let mut meta = Metadata::new();
    meta.insert("author".to_string(), "Some Author".to_string());
    BookContents {
        id: "royalroad-123",
        title: "My Story",
        language: "en-US".to_string(),
        author: "Some Author",
        modified: Timestamp::new(2023, 2, 1, 10, 30, 0).unwrap(),
        cover_image: cover,
        meta,
        chapters,
    }
}

fn read_back(bytes: Vec<u8>) -> Vec<(String, bool, Vec<u8>)> {
    let mut archive = zip::ZipArchive::new(std::io::Cursor::new(bytes)).unwrap();
    let mut entries = Vec::new();
    for i in 0..archive.len() {
        let mut file = archive.by_index(i).unwrap();
        let stored = file.compression() == zip::CompressionMethod::Stored;
        let mut data = Vec::new();
        file.read_to_end(&mut data).unwrap();
        entries.push((file.name().to_string(), stored, data));
    }
    entries
}

#[test]
fn package_of_two_chapters_and_a_cover_has_eight_entries() {
    let chapters = vec![chapter("First", "<p>one</p>"), chapter("Second", "<p>two</p>")];
    let nav = Navigation { id: "royalroad-123", title: "My Story", chapters: &chapters };
    let manifest = contents(&chapters, Some(vec![0xff, 0xd8, 0xff, 0xe0]));
    let bytes = write_epub(&nav, &manifest).unwrap();
    let entries = read_back(bytes);
    let names: Vec<&str> = entries.iter().map(|e| e.0.as_str()).collect();
    assert_eq!(
        names,
        vec![
            "mimetype",
            "META-INF/container.xml",
            "OEBPS/nav.xhtml",
            "OEBPS/content.opf",
            "OEBPS/content/chapter_1.html",
            "OEBPS/content/chapter_2.html",
            "OEBPS/content/cover.html",
            "OEBPS/content/cover.jpg",
        ]
    );
    assert_eq!(entries.len(), 8);
    assert!(entries.iter().all(|e| e.1));
    assert_eq!(entries[0].2, b"application/epub+zip");
    assert!(String::from_utf8(entries[1].2.clone()).unwrap().contains("full-path=\"OEBPS/content.opf\""));
    assert_eq!(entries[2].2, nav.render().into_bytes());
    assert_eq!(entries[3].2, manifest.render().into_bytes());
    assert_eq!(entries[4].2, chapters[0].render().into_bytes());
    assert_eq!(entries[5].2, chapters[1].render().into_bytes());
    assert!(String::from_utf8(entries[6].2.clone()).unwrap().contains("<img src=\"cover.jpg\""));
    assert_eq!(entries[7].2, vec![0xff, 0xd8, 0xff, 0xe0]);
    let manifest_text = String::from_utf8(entries[3].2.clone()).unwrap();
    assert_eq!(manifest_text.matches("<meta name=").count(), 2);
    assert_eq!(manifest_text.matches("<dc:").count(), 4);
}

#[test]
fn type_identifier_stands_first_and_uncompressed() {
    let nav = Navigation { id: "i", title: "t", chapters: &[] };
    let bytes = write_epub(&nav, &contents(&[], None)).unwrap();
    assert_eq!(&bytes[0..4], b"PK\x03\x04");
    assert_eq!(&bytes[8..10], &[0, 0]);
    assert_eq!(&bytes[30..38], b"mimetype");
    assert_eq!(&bytes[38..58], b"application/epub+zip");
}

#[test]
fn package_without_cover_has_an_empty_cover_image() {
    let chapters = vec![chapter("Only", "<p>one</p>")];
    let nav = Navigation { id: "royalroad-123", title: "My Story", chapters: &chapters };
    let entries = read_back(write_epub(&nav, &contents(&chapters, None)).unwrap());
    assert_eq!(entries.len(), 7);
    assert_eq!(entries[6].0, "OEBPS/content/cover.jpg");
    assert!(entries[6].2.is_empty());
}

#[test]
fn package_without_chapters_has_six_entries() {
    let nav = Navigation { id: "i", title: "t", chapters: &[] };
    let entries = read_back(write_epub(&nav, &contents(&[], None)).unwrap());
    assert_eq!(entries.len(), 6);
}

#[test]
fn chapters_are_named_by_position() {
    let chapters: Vec<ChapterTemplate> =
        (1..=11).map(|n| chapter(&format!("T{}", n), &format!("<p>{}</p>", n))).collect();
    let nav = Navigation { id: "i", title: "t", chapters: &chapters };
    let entries = package_entries(&nav, &contents(&chapters, None));
    assert_eq!(entries.len(), 17);
    for n in 1..=11usize {
        assert_eq!(entries[3 + n].name, format!("OEBPS/content/chapter_{}.html", n));
        assert_eq!(entries[3 + n].data, chapters[n - 1].render().into_bytes());
    }
}

#[test]
fn package_is_the_same_every_time() {
    let chapters = vec![chapter("First", "<p>one</p>")];
    let nav = Navigation { id: "i", title: "t", chapters: &chapters };
    let a = write_epub(&nav, &contents(&chapters, None)).unwrap();
    let b = write_epub(&nav, &contents(&chapters, None)).unwrap();
    assert_eq!(a, b);
}

#[test]
fn chapter_counts_must_agree() {
    let two = vec![chapter("a", ""), chapter("b", "")];
    let one = vec![chapter("a", "")];
    let nav = Navigation { id: "i", title: "t", chapters: &two };
    let r = write_epub(&nav, &contents(&one, None));
    assert_eq!(r, Err(PackagingError::ChapterCount));
}

#[test]
fn archive_holds_the_entries_in_their_order() {
    let entries = vec![
        ArchiveEntry { name: "b.txt".to_string(), data: b"second name, first place".to_vec() },
        ArchiveEntry { name: "a.txt".to_string(), data: Vec::new() },
        ArchiveEntry { name: "dir/c.bin".to_string(), data: vec![0, 1, 2, 255] },
    ];
    let back = read_back(archive_of(&entries).unwrap());
    assert_eq!(back.len(), 3);
    for (entry, read) in entries.iter().zip(back.iter()) {
        assert_eq!(entry.name, read.0);
        assert!(read.1);
        assert_eq!(entry.data, read.2);
    }
}

#[test]
fn archive_without_entries() {
    let back = read_back(archive_of(&Vec::new()).unwrap());
    assert!(back.is_empty());
}

#[test]
fn output_file_is_named_by_author_and_title() {
    assert_eq!(output_file_name("Some Author", "My Story"), "output/Some Author - My Story.epub");
    assert_eq!(output_file_name("", ""), "output/ - .epub");
}

#[test]
fn entries_are_stored_and_limited_to_four_gibibytes() {
    assert_eq!(STORED, 0);
    assert_eq!(ENTRY_LIMIT as u64, u32::MAX as u64);
}
