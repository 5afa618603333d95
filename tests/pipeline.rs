use rss_newspaper::{
    ascii_lowercase, collect_entries, contains_text, deletion_outcome, escape_html,
    extract_article, fetch_feed, finish_article_pdf, finish_feed_probe, first_element_text,
    format_article, found_feed, is_feed_content_type, is_valid_url, new_feed_row, parse_feed,
    refresh_feed, render_feed_html, scrape_article, start_article_pdf, start_feed_probe,
    trim_text, ArticleError, Entry, EntryTemplate, ExtractedArticle, Feed, FetchError, PdfStep,
    ProbeStep, RenderOutcome, ReplyBody, RootTemplate, StoreError,
};

const THREE_ITEMS: &str = "<?xml version=\"1.0\"?><rss version=\"2.0\"><channel>\
<title>Chan</title><link>http://example.com</link><description>About it</description>\
<item><title>First</title><link>http://example.com/1</link><description>One</description></item>\
<item><title>Second</title><link>http://example.com/2</link></item>\
<item><title>Third</title><comments>http://example.com/3#c</comments></item>\
</channel></rss>";

const WITH_EMPTY_ITEM: &str = "<?xml version=\"1.0\"?><rss version=\"2.0\"><channel>\
<title>Chan</title><link>http://example.com</link><description>About it</description>\
<item><title>Kept</title></item>\
<item><pubDate>Thu, 23 May 2024 14:20:31 +0000</pubDate></item>\
<item><description>No title here</description></item>\
</channel></rss>";

fn feed(id: i64, url: &str) -> Feed {
    Feed { id, url: url.to_string(), title: String::new(), description: String::new() }
}

#[test]
fn valid_url_needs_web_scheme() {
    assert!(is_valid_url("https://example.com/feed.xml"));
    assert!(is_valid_url("http://example.com/rss"));
    assert!(!is_valid_url("ftp://example.com/feed.xml"));
    assert!(!is_valid_url("not a url"));
    assert!(!is_valid_url(""));
}

#[test]
fn non_web_scheme_is_rejected_without_fetch() {
    assert!(matches!(start_feed_probe("ftp://example.com/feed.xml"), ProbeStep::Reject));
    assert!(matches!(start_feed_probe("mailto:someone@example.com"), ProbeStep::Reject));
    assert!(matches!(start_feed_probe("file:///etc/feed.xml"), ProbeStep::Reject));
    assert!(matches!(start_feed_probe("example.com/feed"), ProbeStep::Reject));
    match start_feed_probe("https://example.com/feed.xml") {
        ProbeStep::Fetch(u) => assert_eq!(u, "https://example.com/feed.xml"),
        ProbeStep::Reject => panic!("a web URL must be fetched"),
    }
}

#[test]
fn rss_content_type_is_a_feed_and_html_is_not() {
    assert!(finish_feed_probe(Some("application/rss+xml")));
    assert!(!finish_feed_probe(Some("text/html")));
    assert!(finish_feed_probe(Some("Application/RSS+XML; charset=utf-8")));
    assert!(finish_feed_probe(Some("text/xml")));
    assert!(finish_feed_probe(Some("application/xml")));
    assert!(!finish_feed_probe(Some("application/json")));
    assert!(!finish_feed_probe(None));
    assert!(is_feed_content_type("TEXT/XML"));
    assert!(!is_feed_content_type(""));
}

#[test]
fn text_helpers_give_exact_values() {
    assert_eq!(ascii_lowercase("Text/XML; Ä"), "text/xml; Ä");
    assert!(contains_text("abcdef", "cde"));
    assert!(!contains_text("abc", "abcd"));
    assert!(contains_text("abc", ""));
    assert_eq!(trim_text("  \n hello world \t"), "hello world");
    assert_eq!(trim_text("   "), "");
    assert_eq!(escape_html("<a href=\"x\">Tom & 'Jerry'</a>"),
        "&lt;a href=&quot;x&quot;&gt;Tom &amp; &#x27;Jerry&#x27;&lt;/a&gt;");
}

#[test]
fn first_element_text_strips_tags() {
    assert_eq!(first_element_text("<div><H1 class=\"x\">Big <em>News</em></H1></div>", "h1"),
        Some("Big News".to_string()));
    assert_eq!(first_element_text("<pre>code</pre><p>Para</p>", "p"), Some("Para".to_string()));
    assert_eq!(first_element_text("<p>never closed", "p"), None);
    assert_eq!(first_element_text("no markup", "h1"), None);
}

#[test]
fn feed_with_three_items_parses_in_order() {
    let c = parse_feed(THREE_ITEMS).ok().unwrap();
    assert_eq!(c.title, "Chan");
    assert_eq!(c.description, "About it");
    assert_eq!(c.items.len(), 3);
    let titles: Vec<_> = c.items.iter().map(|i| i.title.clone().unwrap()).collect();
    assert_eq!(titles, vec!["First", "Second", "Third"]);
    assert_eq!(c.items[0].link.as_deref(), Some("http://example.com/1"));
    assert_eq!(c.items[0].description.as_deref(), Some("One"));
    assert_eq!(c.items[2].comments.as_deref(), Some("http://example.com/3#c"));
}

#[test]
fn parsing_is_repeatable() {
    let a = parse_feed(THREE_ITEMS).ok().unwrap();
    let b = parse_feed(THREE_ITEMS).ok().unwrap();
    assert_eq!(a.items.len(), b.items.len());
    for (x, y) in a.items.iter().zip(b.items.iter()) {
        assert_eq!(x.title, y.title);
        assert_eq!(x.link, y.link);
        assert_eq!(x.description, y.description);
    }
}

#[test]
fn items_without_content_are_dropped() {
    let c = parse_feed(WITH_EMPTY_ITEM).ok().unwrap();
    assert_eq!(c.items.len(), 2);
    assert_eq!(c.items[0].title.as_deref(), Some("Kept"));
    assert_eq!(c.items[1].description.as_deref(), Some("No title here"));
}

#[test]
fn malformed_feed_is_a_parse_error() {
    assert!(matches!(parse_feed("<html><body>not a feed</body></html>"), Err(FetchError::Parse)));
    assert!(matches!(parse_feed(""), Err(FetchError::Parse)));
}

#[test]
fn fetch_feed_tells_network_from_parse() {
    match fetch_feed(Err("timed out".to_string())) {
        Err(FetchError::Network(m)) => assert_eq!(m, "timed out"),
        _ => panic!("expected a network error"),
    }
    assert!(matches!(fetch_feed(Ok("garbage".to_string())), Err(FetchError::Parse)));
    assert_eq!(fetch_feed(Ok(THREE_ITEMS.to_string())).ok().unwrap().items.len(), 3);
}

#[test]
fn unreachable_feed_does_not_empty_listing() {
    let feeds = vec![feed(1, "http://a.example/rss"), feed(2, "http://b.example/rss"),
        feed(3, "http://c.example/rss")];
    let fetched = vec![Ok(THREE_ITEMS.to_string()), Err("connection refused".to_string()),
        Ok(WITH_EMPTY_ITEM.to_string())];
    let lists = collect_entries(&feeds, fetched);
    assert_eq!(lists.len(), 3);
    assert_eq!(lists[0].feed_url, "http://a.example/rss");
    assert_eq!(lists[0].entries.len(), 3);
    assert!(lists[0].failure.is_none());
    assert!(lists[1].entries.is_empty());
    assert!(matches!(&lists[1].failure, Some(FetchError::Network(m)) if m == "connection refused"));
    // every item that carries content becomes a headline
    assert_eq!(lists[2].entries.len(), 2);
    assert_eq!(lists[2].entries[0].title, "Kept");
    assert_eq!(lists[2].entries[0].url, "");
    assert_eq!(lists[2].entries[1].title, "");
    assert_eq!(lists[2].entries[1].description, "No title here");
}

#[test]
fn malformed_feed_gets_parse_marker() {
    let feeds = vec![feed(1, "http://a.example/rss")];
    let lists = collect_entries(&feeds, vec![Ok("nope".to_string())]);
    assert!(matches!(lists[0].failure, Some(FetchError::Parse)));
    assert!(lists[0].entries.is_empty());
}

#[test]
fn entry_template_escapes_text() {
    let e = Entry {
        title: "A & B".to_string(),
        url: "http://x/?a=1&b=2".to_string(),
        description: "<b>hi</b>".to_string(),
        comments: String::new(),
    };
    assert_eq!(EntryTemplate { entry: &e }.render(),
        "<article class=\"entry\"><h3><a href=\"http://x/?a=1&amp;b=2\">A &amp; B</a></h3>\
<div class=\"description\">hi</div></article>");
    let c = Entry { comments: "http://x/c".to_string(), ..e };
    assert!(EntryTemplate { entry: &c }.render()
        .ends_with("<a class=\"comments\" href=\"http://x/c\">Comments</a></article>"));
}

#[test]
fn headline_page_lists_entries_and_failures() {
    let feeds = vec![feed(1, "http://a/rss"), feed(2, "http://b/rss"), feed(3, "http://c/rss")];
    let fetched = vec![
        Ok("<rss version=\"2.0\"><channel><title>t</title><link>l</link><description>d</description>\
<item><title>X</title><link>http://a/x</link></item></channel></rss>".to_string()),
        Err("down".to_string()),
        Ok("not xml".to_string()),
    ];
    let html = render_feed_html(collect_entries(&feeds, fetched));
    assert_eq!(html,
        "<h2>http://a/rss</h2><article class=\"entry\"><h3><a href=\"http://a/x\">X</a></h3>\
<div class=\"description\"></div></article>\
<h2>http://b/rss</h2><p class=\"feed-error\">Could not reach this feed: down</p>\
<h2>http://c/rss</h2><p class=\"feed-error\">This feed could not be read as RSS.</p>");
    assert_eq!(render_feed_html(Vec::new()), "");
}

#[test]
fn root_page_links_views() {
    let page = RootTemplate {}.render();
    assert!(page.starts_with("<!DOCTYPE html>"));
    assert!(page.contains("href=\"/headlines\""));
}

#[test]
fn minimal_article_is_extracted() {
    let html = "<html><body><article><h1>T</h1><p>Body</p></article></body></html>";
    let a = extract_article(html, "http://example.com/post").ok().unwrap();
    assert_eq!(a.title, "T");
    assert!(a.content.contains("Body"));
    assert_eq!(a.description, "Body");
}

#[test]
fn page_title_wins_over_heading() {
    let html = "<html><head><title> Page </title></head><body><article><h1>H</h1>\
<p>Some body text that is long enough, to be an article paragraph.</p></article></body></html>";
    let a = extract_article(html, "http://example.com/post").ok().unwrap();
    assert_eq!(a.title, "Page");
}

#[test]
fn empty_page_is_an_extraction_error() {
    assert!(matches!(extract_article("", "http://example.com/"), Err(ArticleError::Extraction)));
    assert!(matches!(extract_article("<p>x</p>", "not a url"), Err(ArticleError::Extraction)));
}

#[test]
fn article_view_formats_and_reports() {
    let a = ExtractedArticle {
        title: "T&lt;".to_string(),
        description: "D".to_string(),
        content: "<div><p>C</p></div>".to_string(),
    };
    assert_eq!(format_article(&a), "<h1>T&lt;</h1><p class=\"italic\">D</p><div><p>C</p></div>");
    let e = scrape_article("http://e/a", Err("dns".to_string())).err().unwrap();
    assert_eq!(e.message(), "Error fetching article: dns");
    let e = scrape_article("http://e/a", Ok(String::new())).err().unwrap();
    assert_eq!(e.message(), "Error scraping article: no readable content was found");
    let page = scrape_article("http://e/a",
        Ok("<html><body><article><h1>T</h1><p>Body</p></article></body></html>".to_string()))
        .ok().unwrap();
    assert!(page.starts_with("<h1>T</h1><p class=\"italic\">Body</p>"));
}

#[test]
fn pdf_on_extraction_failure_is_plain_text_error() {
    for fetched in [Ok(String::new()), Err("refused".to_string())] {
        match start_article_pdf("http://e/a", fetched) {
            PdfStep::Reply(r) => {
                assert_eq!(r.status, 500);
                assert_eq!(r.content_type, "text/plain");
                assert!(r.disposition.is_none());
                match r.body {
                    ReplyBody::Text(t) => assert!(t.starts_with("Error")),
                    ReplyBody::Pdf(_) => panic!("no document on failure"),
                }
            }
            PdfStep::Render(_) => panic!("nothing to render"),
        }
    }
}

#[test]
fn pdf_render_step_carries_reading_view() {
    let html = "<html><body><article><h1>T</h1><p>Body</p></article></body></html>";
    match start_article_pdf("http://e/a", Ok(html.to_string())) {
        PdfStep::Render(doc) => assert!(doc.starts_with("<h1>T</h1>") && doc.contains("Body")),
        PdfStep::Reply(_) => panic!("extraction should succeed"),
    }
}

#[test]
fn pdf_reply_only_for_non_empty_document() {
    let ok = finish_article_pdf(RenderOutcome::Pdf(vec![37, 80, 68, 70]));
    assert_eq!(ok.status, 200);
    assert_eq!(ok.content_type, "application/pdf");
    assert_eq!(ok.disposition.as_deref(), Some("attachment; filename=\"article.pdf\""));
    assert!(matches!(ok.body, ReplyBody::Pdf(ref b) if b == &vec![37, 80, 68, 70]));
    for outcome in [RenderOutcome::Pdf(Vec::new()), RenderOutcome::File,
        RenderOutcome::Failed("xelatex not found".to_string())] {
        let r = finish_article_pdf(outcome);
        assert_eq!(r.status, 500);
        assert_eq!(r.content_type, "text/plain");
    }
    let r = finish_article_pdf(RenderOutcome::File);
    assert!(matches!(r.body, ReplyBody::Text(ref t) if t == "Pandoc output to file not supported"));
    let r = finish_article_pdf(RenderOutcome::Failed("boom".to_string()));
    assert!(matches!(r.body, ReplyBody::Text(ref t) if t == "Error converting article to PDF: boom"));
}

#[test]
fn deleting_missing_feed_succeeds() {
    assert!(deletion_outcome(Ok(0)).is_ok());
    assert!(deletion_outcome(Ok(1)).is_ok());
    assert!(matches!(deletion_outcome(Err("locked".to_string())),
        Err(StoreError::Store(m)) if m == "locked"));
}

#[test]
fn new_feed_needs_valid_feed() {
    assert!(matches!(new_feed_row("http://a/rss", false, Ok(THREE_ITEMS.to_string())),
        Err(StoreError::InvalidInput)));
    let row = new_feed_row("http://a/rss", true, Ok(THREE_ITEMS.to_string())).ok().unwrap();
    assert_eq!((row.url.as_str(), row.title.as_str(), row.description.as_str()),
        ("http://a/rss", "Chan", "About it"));
    assert!(matches!(new_feed_row("http://a/rss", true, Err("x".to_string())),
        Err(StoreError::Fetch(FetchError::Network(_)))));
    assert!(matches!(new_feed_row("http://a/rss", true, Ok("x".to_string())),
        Err(StoreError::Fetch(FetchError::Parse))));
}

#[test]
fn refresh_keeps_row_on_failure() {
    let f = Feed { id: 7, url: "http://a/rss".to_string(), title: "Old".to_string(),
        description: "Old d".to_string() };
    let (kept, err) = refresh_feed(f, Err("down".to_string()));
    assert_eq!((kept.id, kept.title.as_str(), kept.description.as_str()), (7, "Old", "Old d"));
    assert!(matches!(err, Some(FetchError::Network(_))));
    let (new, err) = refresh_feed(kept, Ok(THREE_ITEMS.to_string()));
    assert_eq!((new.id, new.title.as_str(), new.description.as_str()), (7, "Chan", "About it"));
    assert!(err.is_none());
}

#[test]
fn missing_feed_is_not_found() {
    assert!(matches!(found_feed(None), Err(StoreError::NotFound)));
    assert_eq!(found_feed(Some(feed(3, "u"))).ok().unwrap().id, 3);
}
