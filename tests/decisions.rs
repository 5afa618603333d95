use rss_newspaper::{
    article_from_readable, is_web_scheme_text, keep_items, show_read_date, ArticleError,
    FeedContent, FeedItem,
};

fn item(title: Option<&str>, link: Option<&str>, description: Option<&str>) -> FeedItem {
    FeedItem {
        title: title.map(str::to_string),
        link: link.map(str::to_string),
        description: description.map(str::to_string),
        publish_date: Some("Thu, 23 May 2024 14:20:31 +0000".to_string()),
        comments: None,
    }
}

#[test]
fn keep_items_drops_only_empty_entries() {
    let raw = FeedContent {
        title: "T".to_string(),
        description: "D".to_string(),
        items: vec![
            item(None, None, None),
            item(Some("a"), None, None),
            item(None, Some("http://l"), None),
            item(None, None, None),
            item(None, None, Some("d")),
        ],
    };
    let kept = keep_items(raw);
    assert_eq!(kept.title, "T");
    assert_eq!(kept.description, "D");
    assert_eq!(kept.items.len(), 3);
    assert_eq!(kept.items[0].title.as_deref(), Some("a"));
    assert_eq!(kept.items[1].link.as_deref(), Some("http://l"));
    assert_eq!(kept.items[2].description.as_deref(), Some("d"));
}

#[test]
fn keep_items_keeps_all_well_formed_items_in_order() {
    let raw = FeedContent {
        title: String::new(),
        description: String::new(),
        items: vec![item(Some("1"), None, None), item(Some("2"), None, None),
            item(Some("3"), None, None), item(Some("4"), None, None)],
    };
    let kept = keep_items(raw);
    let titles: Vec<_> = kept.items.iter().map(|i| i.title.clone().unwrap()).collect();
    assert_eq!(titles, vec!["1", "2", "3", "4"]);
}

#[test]
fn web_scheme_is_http_or_https() {
    assert!(is_web_scheme_text(Some("http")));
    assert!(is_web_scheme_text(Some("https")));
    assert!(!is_web_scheme_text(Some("ftp")));
    assert!(!is_web_scheme_text(Some("HTTP")));
    assert!(!is_web_scheme_text(None));
}

#[test]
fn readable_parts_make_article() {
    let html = "<html><body><h1> Heading </h1></body></html>";
    let a = article_from_readable(html, "  ".to_string(), "<div><p>First <b>para</b></p><p>2</p></div>"
        .to_string(), "First para 2".to_string()).ok().unwrap();
    assert_eq!(a.title, "Heading");
    assert_eq!(a.description, "First para");
    assert_eq!(a.content, "<div><p>First <b>para</b></p><p>2</p></div>");
    let b = article_from_readable(html, "Page".to_string(), String::new(), "x".to_string())
        .ok().unwrap();
    assert_eq!(b.title, "Page");
    assert_eq!(b.description, "");
    assert!(matches!(article_from_readable(html, "Page".to_string(), "<p></p>".to_string(),
        " \n ".to_string()), Err(ArticleError::Extraction)));
}

#[test]
fn read_date_is_formatted() {
    assert_eq!(show_read_date("x", Some((2024, 5, 23, 3))), "Thu, 23 May 2024");
    assert_eq!(show_read_date("x", Some((7, 12, 1, 6))), "Sun, 01 Dec 0007");
    assert_eq!(show_read_date("raw", Some((12000, 1, 1, 0))), "raw");
    assert_eq!(show_read_date("raw", None), "raw");
}
