use webnovel_epub::template::{
    chapter_identifier, BookContents, ChapterTemplate, Metadata, Navigation,
};
use webnovel_epub::timestamp::Timestamp;

fn chapter(title: &str, text: &str) -> ChapterTemplate {
    ChapterTemplate {
        text: text.to_string(),
        title: title.to_string(),
        published_at: Timestamp::new(2023, 1, 2, 3, 4, 5).unwrap(),
    }
}

fn metadata(entries: &[(&str, &str)]) -> Metadata {
    let mut meta = Metadata::new();
    for (key, value) in entries {
        assert_eq!(meta.insert(key.to_string(), value.to_string()), None);
    }
    meta
}

fn count(haystack: &str, needle: &str) -> usize {
    haystack.matches(needle).count()
}

#[test]
fn chapter_document_is_exact() {
    let doc = chapter("One & <Two>", "<div><p>Hi<br />there</p></div>").render();
    let expected = "<?xml version=\"1.0\" encoding=\"UTF-8\"?>\n\
<html xmlns=\"http://www.w3.org/1999/xhtml\">\n\
<head>\n\
<title>One &amp; &lt;Two&gt;</title>\n\
</head>\n\
<body>\n\
<h1>One &amp; &lt;Two&gt;</h1>\n\
<p><time datetime=\"2023-01-02T03:04:05Z\">2023-01-02T03:04:05Z</time></p>\n\
<div><p>Hi<br />there</p></div>\n\
</body>\n\
</html>\n";
    assert_eq!(doc, expected);
}

#[test]
fn every_special_character_is_escaped() {
    let doc = chapter("<>&\"'", "").render();
    assert!(doc.contains("<title>&lt;&gt;&amp;&quot;&#x27;</title>"));
    assert!(doc.contains("<h1>&lt;&gt;&amp;&quot;&#x27;</h1>"));
}

#[test]
fn other_characters_are_not_escaped() {
    let doc = chapter("Čaj – 茶 / tea; 100%", "").render();
    assert!(doc.contains("<h1>Čaj – 茶 / tea; 100%</h1>"));
}

#[test]
fn chapter_identifier_counts_from_the_given_number() {
    assert_eq!(chapter_identifier(1), "chapter_1");
    assert_eq!(chapter_identifier(12), "chapter_12");
    assert_eq!(chapter_identifier(100), "chapter_100");
}

#[test]
fn navigation_document_is_exact() {
    let chapters = vec![chapter("First", ""), chapter("Second <2>", "")];
    let nav = Navigation { id: "royalroad-123", title: "My \"Story\"", chapters: &chapters };
    let expected = "<?xml version=\"1.0\" encoding=\"UTF-8\"?>\n\
<html xmlns=\"http://www.w3.org/1999/xhtml\" xmlns:epub=\"http://www.idpf.org/2007/ops\">\n\
<head>\n\
<meta name=\"dc.identifier\" content=\"royalroad-123\"/>\n\
<title>My &quot;Story&quot;</title>\n\
</head>\n\
<body>\n\
<nav epub:type=\"toc\" id=\"toc\">\n\
<h1>My &quot;Story&quot;</h1>\n\
<ol>\n\
<li><a href=\"content/chapter_1.html\">First</a></li>\n\
<li><a href=\"content/chapter_2.html\">Second &lt;2&gt;</a></li>\n\
</ol>\n\
</nav>\n\
</body>\n\
</html>\n";
    assert_eq!(nav.render(), expected);
}

#[test]
fn navigation_lists_chapters_in_their_order() {
    let chapters: Vec<ChapterTemplate> =
        (1..=12).map(|n| chapter(&format!("Title {}", n), "")).collect();
    let doc = Navigation { id: "x", title: "t", chapters: &chapters }.render();
    let mut last = 0;
    for n in 1..=12 {
        let entry = format!("<li><a href=\"content/chapter_{}.html\">Title {}</a></li>\n", n, n);
        let at = doc.find(&entry).unwrap();
        assert!(at >= last);
        last = at;
    }
    assert_eq!(count(&doc, "<li>"), 12);
}

#[test]
fn navigation_without_chapters() {
    let doc = Navigation { id: "x", title: "t", chapters: &[] }.render();
    assert!(doc.contains("<ol>\n</ol>\n"));
}

#[test]
fn manifest_document_is_exact() {
    let chapters = vec![chapter("First", ""), chapter("Second", "")];
    let contents = BookContents {
        id: "royalroad-123",
        title: "My Story",
        language: "en-US".to_string(),
        author: "A & B",
        modified: Timestamp::new(2023, 2, 1, 10, 30, 0).unwrap(),
        cover_image: Some(vec![1, 2, 3]),
        meta: metadata(&[("author", "A & B")]),
        chapters: &chapters,
    };
    let expected = "<?xml version=\"1.0\" encoding=\"UTF-8\"?>\n\
<package xmlns=\"http://www.idpf.org/2007/opf\" version=\"3.0\" unique-identifier=\"book-id\" xml:lang=\"en-US\">\n\
<metadata xmlns:dc=\"http://purl.org/dc/elements/1.1/\">\n\
<dc:identifier id=\"book-id\">royalroad-123</dc:identifier>\n\
<dc:title>My Story</dc:title>\n\
<dc:language>en-US</dc:language>\n\
<dc:creator>A &amp; B</dc:creator>\n\
<meta property=\"dcterms:modified\">2023-02-01T10:30:00Z</meta>\n\
<meta name=\"cover\" content=\"cover-image\"/>\n\
<meta name=\"author\" content=\"A &amp; B\"/>\n\
</metadata>\n\
<manifest>\n\
<item id=\"nav\" href=\"nav.xhtml\" media-type=\"application/xhtml+xml\" properties=\"nav\"/>\n\
<item id=\"cover\" href=\"content/cover.html\" media-type=\"application/xhtml+xml\"/>\n\
<item id=\"cover-image\" href=\"content/cover.jpg\" media-type=\"image/jpeg\" properties=\"cover-image\"/>\n\
<item id=\"chapter_1\" href=\"content/chapter_1.html\" media-type=\"application/xhtml+xml\"/>\n\
<item id=\"chapter_2\" href=\"content/chapter_2.html\" media-type=\"application/xhtml+xml\"/>\n\
</manifest>\n\
<spine>\n\
<itemref idref=\"cover\"/>\n\
<itemref idref=\"chapter_1\"/>\n\
<itemref idref=\"chapter_2\"/>\n\
</spine>\n\
</package>\n";
    assert_eq!(contents.render(), expected);
}

#[test]
fn manifest_without_cover_names_no_cover_image() {
    let contents = BookContents {
        id: "i",
        title: "t",
        language: "en-US".to_string(),
        author: "a",
        modified: Timestamp::new(2023, 2, 1, 10, 30, 0).unwrap(),
        cover_image: None,
        meta: Metadata::new(),
        chapters: &[],
    };
    let doc = contents.render();
    assert_eq!(count(&doc, "cover-image"), 0);
    assert_eq!(count(&doc, "<meta name="), 0);
    assert_eq!(count(&doc, "<item "), 2);
    assert_eq!(count(&doc, "<itemref "), 1);
}

#[test]
fn manifest_has_one_element_for_each_entry_of_the_metadata() {
    let chapters = vec![chapter("a", ""), chapter("b", ""), chapter("c", "")];
    let meta = metadata(&[
        ("author", "x"),
        ("source", "https://example.com/?a=1&b=2"),
        ("note", "\"quoted\""),
    ]);
    let contents = BookContents {
        id: "i",
        title: "t",
        language: "en-US".to_string(),
        author: "x",
        modified: Timestamp::new(2023, 2, 1, 10, 30, 0).unwrap(),
        cover_image: None,
        meta,
        chapters: &chapters,
    };
    let doc = contents.render();
    assert_eq!(count(&doc, "<meta name="), 3);
    assert_eq!(count(&doc, "<dc:"), 4);
    assert_eq!(count(&doc, "<meta property=\"dcterms:modified\">"), 1);
    assert!(doc.contains("<meta name=\"source\" content=\"https://example.com/?a=1&amp;b=2\"/>\n"));
    assert!(doc.contains("<meta name=\"note\" content=\"&quot;quoted&quot;\"/>\n"));
    assert_eq!(count(&doc, "<item id=\"chapter_"), 3);
    assert_eq!(count(&doc, "<itemref idref=\"chapter_"), 3);
}

#[test]
fn metadata_holds_each_key_once() {
    let mut meta = Metadata::new();
    assert_eq!(meta.len(), 0);
    assert_eq!(meta.position("author"), None);
    assert_eq!(meta.insert("author".to_string(), "first".to_string()), None);
    assert_eq!(meta.insert("series".to_string(), "s".to_string()), None);
    assert_eq!(meta.insert("author".to_string(), "second".to_string()), Some("first".to_string()));
    assert_eq!(meta.len(), 2);
    assert_eq!(meta.position("author"), Some(0));
    assert_eq!(meta.position("series"), Some(1));
    assert_eq!(meta.position("Author"), None);
    assert_eq!(meta.key(0), "author");
    assert_eq!(meta.value(0), "second");
    assert_eq!(meta.key(1), "series");
    assert_eq!(meta.value(1), "s");
}

#[test]
fn manifest_shows_the_metadata_in_the_order_of_the_keys() {
    let mut meta = metadata(&[("b", "1"), ("a", "2")]);
    assert_eq!(meta.insert("b".to_string(), "3".to_string()), Some("1".to_string()));
    let contents = BookContents {
        id: "i",
        title: "t",
        language: "en-US".to_string(),
        author: "x",
        modified: Timestamp::new(2023, 2, 1, 10, 30, 0).unwrap(),
        cover_image: None,
        meta,
        chapters: &[],
    };
    let doc = contents.render();
    assert!(doc.contains(
        "<meta name=\"b\" content=\"3\"/>\n<meta name=\"a\" content=\"2\"/>\n</metadata>"
    ));
    assert_eq!(count(&doc, "<meta name="), 2);
}
