use webnovel_epub::source::royal_road::{
    book_identifier, cover_location, read_published, read_times, resolve_links,
};
use webnovel_epub::source::{
    extract_filled_text, extract_text, find_source, EpubSource, ExtractError, RoyalRoad,
};
use webnovel_epub::timestamp::Timestamp;

const INDEX_URL: &str = "https://www.royalroad.com/fiction/123/my-slug";

fn index_page(rows: &str) -> String {
    format!(
        "<html><head><title>x</title></head><body>\
<h1> My Story </h1>\
<h4>by <a href=\"/profile/42\"> Some Author </a></h4>\
<table id=\"chapters\"><tbody>{}</tbody></table>\
</body></html>",
        rows
    )
}

fn row(href: &str, datetime: &str) -> String {
    format!(
        "<tr class=\"chapter-row\"><td><a href=\"{}\">Name</a></td>\
<td><a href=\"{}\"><time datetime=\"{}\">a while ago</time></a></td></tr>",
        href, href, datetime
    )
}

fn two_rows() -> String {
    format!(
        "{}{}",
        row("/fiction/123/my-slug/chapter/1/one", "2023-01-01T10:00:00.0000000Z"),
        row("/fiction/123/my-slug/chapter/2/two", "2023-02-01T12:30:00.0000000+02:00")
    )
}

fn chapter_page(body: &str, published: &str) -> String {
    format!(
        "<html><body><h1> Chapter One </h1>\
<div><i title=\"Published\"></i>{}</div>\
{}</body></html>",
        published, body
    )
}

#[test]
fn royal_road_knows_its_own_domain() {
    let source = RoyalRoad {};
    assert!(source.matches_url(INDEX_URL));
    assert!(source.matches_url("http://www.royalroad.com/"));
    assert!(source.matches_url("https://WWW.RoyalRoad.com/fiction/1/x"));
    assert!(!source.matches_url("https://royalroad.com/fiction/123/my-slug"));
    assert!(!source.matches_url("https://www.example.com/fiction/123/my-slug"));
    assert!(!source.matches_url("https://127.0.0.1/fiction/123/my-slug"));
    assert!(!source.matches_url("www.royalroad.com/fiction/123/my-slug"));
    assert!(!source.matches_url("mailto:someone@www.royalroad.com"));
    assert!(!source.matches_url(""));
}

#[test]
fn index_page_with_two_chapter_rows() {
    let book = RoyalRoad {}.parse_index(INDEX_URL, &index_page(&two_rows())).unwrap();
    assert_eq!(book.id, "royalroad-123");
    assert_eq!(book.title, "My Story");
    assert_eq!(book.author_name, "Some Author");
    assert_eq!(
        book.chapters,
        vec![
            "https://www.royalroad.com/fiction/123/my-slug/chapter/1/one",
            "https://www.royalroad.com/fiction/123/my-slug/chapter/2/two",
        ]
    );
    assert_eq!(
        book.cover.as_deref(),
        Some("https://www.royalroadcdn.com/public/covers-large/123-my-slug.jpg")
    );
    assert_eq!(book.modified, Timestamp::new(2023, 2, 1, 10, 30, 0).unwrap());
}

#[test]
fn chapters_keep_the_order_of_the_page() {
    let rows: String = [5, 3, 9, 1, 7]
        .iter()
        .map(|n| row(&format!("chapter/{}", n), "2023-01-01T10:00:00Z"))
        .collect();
    let book = RoyalRoad {}.parse_index(INDEX_URL, &index_page(&rows)).unwrap();
    let expected: Vec<String> = [5, 3, 9, 1, 7]
        .iter()
        .map(|n| format!("https://www.royalroad.com/fiction/123/chapter/{}", n))
        .collect();
    assert_eq!(book.chapters, expected);
}

#[test]
fn modified_is_the_latest_time_of_the_page() {
    let rows = format!(
        "{}{}{}",
        row("a", "2023-03-01T00:00:00Z"),
        row("b", "2024-01-01T00:00:00+05:00"),
        row("c", "2023-12-31T23:59:59Z")
    );
    let book = RoyalRoad {}.parse_index(INDEX_URL, &index_page(&rows)).unwrap();
    assert_eq!(book.modified, Timestamp::new(2023, 12, 31, 23, 59, 59).unwrap());
}

#[test]
fn index_page_without_author() {
    let page = "<html><body><h1>My Story</h1></body></html>";
    assert_eq!(RoyalRoad {}.parse_index(INDEX_URL, page).unwrap_err(), ExtractError::Author);
    let page = "<html><body><h1>My Story</h1><a href=\"/profile/1\">  </a></body></html>";
    assert_eq!(RoyalRoad {}.parse_index(INDEX_URL, page).unwrap_err(), ExtractError::Author);
}

#[test]
fn index_page_without_title() {
    let page = "<html><body><a href=\"/profile/1\">A</a></body></html>";
    assert_eq!(RoyalRoad {}.parse_index(INDEX_URL, page).unwrap_err(), ExtractError::Title);
    let page = "<html><body><a href=\"/profile/1\">A</a><h1></h1></body></html>";
    assert_eq!(RoyalRoad {}.parse_index(INDEX_URL, page).unwrap_err(), ExtractError::Title);
}

#[test]
fn index_page_with_a_link_without_target() {
    let rows = format!(
        "{}<tr class=\"chapter-row\"><td><a>Name</a></td><td><time datetime=\"2023-01-01T10:00:00Z\"></time></td></tr>",
        row("one", "2023-01-01T10:00:00Z")
    );
    assert_eq!(
        RoyalRoad {}.parse_index(INDEX_URL, &index_page(&rows)).unwrap_err(),
        ExtractError::ChapterLink { index: 1 }
    );
}

#[test]
fn index_page_with_a_target_that_is_no_address() {
    let rows = row("https://[bad", "2023-01-01T10:00:00Z");
    assert_eq!(
        RoyalRoad {}.parse_index(INDEX_URL, &index_page(&rows)).unwrap_err(),
        ExtractError::ChapterLink { index: 0 }
    );
}

#[test]
fn index_page_with_an_unreadable_time() {
    let rows = format!("{}{}", row("one", "2023-01-01T10:00:00Z"), row("two", "last week"));
    assert_eq!(
        RoyalRoad {}.parse_index(INDEX_URL, &index_page(&rows)).unwrap_err(),
        ExtractError::ChapterTime { index: 1 }
    );
    let rows = "<tr class=\"chapter-row\"><td><a href=\"one\">Name</a></td><td><time>x</time></td></tr>";
    assert_eq!(
        RoyalRoad {}.parse_index(INDEX_URL, &index_page(rows)).unwrap_err(),
        ExtractError::ChapterTime { index: 0 }
    );
}

#[test]
fn index_page_without_chapter_rows() {
    assert_eq!(
        RoyalRoad {}.parse_index(INDEX_URL, &index_page("")).unwrap_err(),
        ExtractError::NoChapterTime
    );
}

#[test]
fn index_address_without_number_and_name() {
    let page = index_page(&two_rows());
    for url in ["https://www.royalroad.com/", "https://www.royalroad.com/fiction/123"] {
        assert_eq!(RoyalRoad {}.parse_index(url, &page).unwrap_err(), ExtractError::Address);
    }
}

#[test]
fn index_address_whose_number_is_unsafe_in_an_identifier() {
    let page = index_page(&two_rows());
    for url in [
        "https://www.royalroad.com/fiction//my-slug",
        "https://www.royalroad.com/fiction/1%202/my-slug",
        "https://www.royalroad.com/fiction/a:b/my-slug",
    ] {
        assert_eq!(RoyalRoad {}.parse_index(url, &page).unwrap_err(), ExtractError::Address);
    }
    let book = RoyalRoad {}
        .parse_index("https://www.royalroad.com/fiction/A-1_b.2/my-slug", &page)
        .unwrap();
    assert_eq!(book.id, "royalroad-A-1_b.2");
}

#[test]
fn cover_that_is_no_address_is_left_out() {
    let page = index_page(&two_rows());
    let book = RoyalRoad {}
        .parse_index("https://www.royalroad.com/fiction/123/my-slug?x=1#y", &page)
        .unwrap();
    assert_eq!(
        book.cover.as_deref(),
        Some("https://www.royalroadcdn.com/public/covers-large/123-my-slug.jpg")
    );
}

#[test]
fn index_address_that_is_none() {
    let page = index_page(&two_rows());
    assert_eq!(
        RoyalRoad {}.parse_index("not an address", &page).unwrap_err(),
        ExtractError::ChapterLink { index: 0 }
    );
}

#[test]
fn chapter_page_gives_title_body_and_time() {
    let page = chapter_page(
        "<div class=\"chapter-content\"><p>Hello<br>World</p><hr><p>End</p></div>",
        "<time unixtime=\"1672567200\" datetime=\"2023-01-01T10:00:00Z\">Sunday</time>",
    );
    let chapter = RoyalRoad {}.parse_chapter(&page).unwrap();
    assert_eq!(chapter.title, "Chapter One");
    assert_eq!(
        chapter.text,
        "<div class=\"chapter-content\"><p>Hello<br />World</p><hr /><p>End</p></div>"
    );
    assert_eq!(chapter.published_at, Timestamp::new(2023, 1, 1, 10, 0, 0).unwrap());
}

#[test]
fn chapter_body_keeps_its_attributes_in_their_order() {
    let body = "<div id=\"b\" class=\"chapter-content\" data-z=\"1\" data-a=\"2\" lang=\"en\">\
<p style=\"x\" class=\"y\" id=\"z\">Text &amp; more</p></div>";
    let page = chapter_page(body, "<time unixtime=\"0\">x</time>");
    let chapter = RoyalRoad {}.parse_chapter(&page).unwrap();
    assert_eq!(chapter.text, body);
    assert_eq!(chapter.published_at, Timestamp::new(1970, 1, 1, 0, 0, 0).unwrap());
}

#[test]
fn chapter_body_has_no_open_void_element() {
    let page = "<h1>C</h1><div class='chapter-content'>a<br class='x'>b<img src='a.png'></div>\
<p><i title='Published'></i><time unixtime='0'></time></p>";
    let chapter = RoyalRoad {}.parse_chapter(page).unwrap();
    assert_eq!(
        chapter.text,
        "<div class=\"chapter-content\">a<br class=\"x\" />b<img src=\"a.png\" /></div>"
    );
}

#[test]
fn chapter_page_takes_the_first_body_and_the_first_title() {
    let page = "<html><body><h1>First</h1><h1>Second</h1>\
<i title=\"Published\"></i><time unixtime=\"60\">x</time><time unixtime=\"120\">y</time>\
<div class=\"chapter-content\">one</div><div class=\"chapter-content\">two</div></body></html>";
    let chapter = RoyalRoad {}.parse_chapter(page).unwrap();
    assert_eq!(chapter.title, "First");
    assert_eq!(chapter.text, "<div class=\"chapter-content\">one</div>");
    assert_eq!(chapter.published_at, Timestamp::new(1970, 1, 1, 0, 1, 0).unwrap());
}

#[test]
fn chapter_page_without_body() {
    let page = chapter_page("", "<time unixtime=\"1672567200\">x</time>");
    assert_eq!(RoyalRoad {}.parse_chapter(&page).unwrap_err(), ExtractError::Content);
}

#[test]
fn chapter_page_without_title() {
    let page = "<html><body><div class=\"chapter-content\">x</div></body></html>";
    assert_eq!(RoyalRoad {}.parse_chapter(page).unwrap_err(), ExtractError::Title);
}

#[test]
fn chapter_page_without_time_of_publication() {
    let body = "<div class=\"chapter-content\">x</div>";
    for published in [
        "",
        "<time datetime=\"2023-01-01T10:00:00Z\">x</time>",
        "<time unixtime=\"soon\">x</time>",
        "<time unixtime=\"\">x</time>",
        "<time unixtime=\"99999999999999\">x</time>",
    ] {
        let page = chapter_page(body, published);
        assert_eq!(RoyalRoad {}.parse_chapter(&page).unwrap_err(), ExtractError::Published);
    }
}

#[test]
fn extract_text_takes_the_first_and_trims_it() {
    let found = Some(vec!["  first \n".to_string(), "second".to_string()]);
    assert_eq!(extract_text(&found, ExtractError::Title), Ok("first".to_string()));
    assert_eq!(extract_text(&Some(Vec::new()), ExtractError::Title), Err(ExtractError::Title));
    assert_eq!(extract_text(&None, ExtractError::Title), Err(ExtractError::Selector));
    assert_eq!(extract_text(&Some(vec![" ".to_string()]), ExtractError::Title), Ok(String::new()));
}

#[test]
fn extract_filled_text_refuses_empty_text() {
    let found = Some(vec!["  first \n".to_string()]);
    assert_eq!(extract_filled_text(&found, ExtractError::Author), Ok("first".to_string()));
    assert_eq!(
        extract_filled_text(&Some(vec![" \t".to_string()]), ExtractError::Author),
        Err(ExtractError::Author)
    );
    assert_eq!(
        extract_filled_text(&Some(Vec::new()), ExtractError::Author),
        Err(ExtractError::Author)
    );
    assert_eq!(extract_filled_text(&None, ExtractError::Author), Err(ExtractError::Selector));
}

#[test]
fn resolve_links_joins_each_target_to_the_base() {
    let targets = vec![
        Some("/a/b".to_string()),
        Some("c".to_string()),
        Some("https://other.example/d".to_string()),
        Some("//cdn.example/e".to_string()),
    ];
    assert_eq!(
        resolve_links("https://www.royalroad.com/fiction/123/my-slug", &targets),
        Ok(vec![
            "https://www.royalroad.com/a/b".to_string(),
            "https://www.royalroad.com/fiction/123/c".to_string(),
            "https://other.example/d".to_string(),
            "https://cdn.example/e".to_string(),
        ])
    );
    assert_eq!(resolve_links(INDEX_URL, &Vec::new()), Ok(Vec::new()));
    assert_eq!(
        resolve_links(INDEX_URL, &vec![Some("a".to_string()), None, None]),
        Err(ExtractError::ChapterLink { index: 1 })
    );
}

#[test]
fn read_times_reads_each_value() {
    let values = vec![Some("2023-01-01T10:00:00Z".to_string()), Some("2023-01-01T10:00:00-01:00".to_string())];
    assert_eq!(
        read_times(&values),
        Ok(vec![
            Timestamp::new(2023, 1, 1, 10, 0, 0).unwrap(),
            Timestamp::new(2023, 1, 1, 11, 0, 0).unwrap(),
        ])
    );
    assert_eq!(
        read_times(&vec![None, Some("x".to_string())]),
        Err(ExtractError::ChapterTime { index: 0 })
    );
}

#[test]
fn read_published_reads_seconds_since_1970() {
    assert_eq!(
        read_published(&Some("1672567200".to_string())),
        Some(Timestamp::new(2023, 1, 1, 10, 0, 0).unwrap())
    );
    assert_eq!(read_published(&Some("-1".to_string())), Some(Timestamp::new(1969, 12, 31, 23, 59, 59).unwrap()));
    assert_eq!(read_published(&Some("1.5".to_string())), None);
    assert_eq!(read_published(&None), None);
}

#[test]
fn find_source_takes_the_first_that_matches() {
    let sources: Vec<&dyn EpubSource> = vec![&RoyalRoad {}, &RoyalRoad {}];
    assert_eq!(find_source(&sources, INDEX_URL), Some(0));
    assert_eq!(find_source(&sources, "https://www.example.com/"), None);
    assert_eq!(find_source(&[], INDEX_URL), None);
}

#[test]
fn identifier_and_cover_come_from_number_and_name() {
    assert_eq!(book_identifier("123"), "royalroad-123");
    assert_eq!(
        cover_location("123", "my-slug"),
        "https://www.royalroadcdn.com/public/covers-large/123-my-slug.jpg"
    );
    assert_eq!(cover_location("", ""), "https://www.royalroadcdn.com/public/covers-large/-.jpg");
}
