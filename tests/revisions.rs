use rss_newspaper::{
    collect_entries, extract_article, extraction_failure_reply, format_article, parse_feed,
    render_article_page, render_feed_detail, render_feed_detail_page, render_headlines_page,
    render_page, scrape_article, ArticleError, Feed, FeedContent, FeedItem, FetchError,
    ReplyBody, StoreError, feed_nesting, html_nesting, MAX_FEED_NESTING, MAX_NESTING,
};

fn feed(id: i64, url: &str, title: &str) -> Feed {
    Feed { id, url: url.to_string(), title: title.to_string(), description: String::new() }
}

#[test]
fn untitled_item_is_listed_under_its_link() {
    let doc = "<rss version=\"2.0\"><channel><title>t</title><link>l</link><description>d</description>\
<item><link>http://a/only-link</link></item><item><title>Titled</title></item></channel></rss>";
    let lists = collect_entries(&vec![feed(1, "http://a/rss", "")], vec![Ok(doc.to_string())]);
    assert_eq!(lists[0].entries.len(), 2);
    assert_eq!(lists[0].entries[0].title, "http://a/only-link");
    assert_eq!(lists[0].entries[0].url, "http://a/only-link");
    assert_eq!(lists[0].entries[1].title, "Titled");
}

#[test]
fn linkless_item_has_no_links_on_detail_page() {
    let content = FeedContent {
        title: "C".to_string(),
        description: String::new(),
        items: vec![FeedItem {
            title: Some("No link".to_string()),
            link: None,
            description: Some("d".to_string()),
            publish_date: None,
            comments: None,
        }],
    };
    let html = render_feed_detail(&feed(2, "http://c/rss", "C"), &content);
    assert!(!html.contains("Read Original"));
    assert!(!html.contains("Download as PDF"));
    assert!(!html.contains("/article?url="));
    assert!(html.contains("<p class=\"title\">No link</p>"));
    assert!(html.contains("<time datetime=\"\" title=\"\"></time></p>"));
}

#[test]
fn fetch_and_store_errors_have_messages() {
    assert_eq!(FetchError::Network("x".to_string()).message(), "Error fetching RSS feed: x");
    assert_eq!(FetchError::Parse.message(), "Error parsing RSS feed");
    assert_eq!(StoreError::InvalidInput.reply(), (400, "Invalid RSS feed".to_string()));
    assert_eq!(StoreError::NotFound.reply(), (404, "No such feed".to_string()));
    assert_eq!(StoreError::Fetch(FetchError::Parse).reply(), (502, "Error parsing RSS feed".to_string()));
    assert_eq!(StoreError::Store("busy".to_string()).reply(), (500, "Store error: busy".to_string()));
}

#[test]
fn page_frames_body_under_escaped_title() {
    assert_eq!(render_page("A<B", "<p>x</p>"),
        "<!DOCTYPE html><html><head><meta charset=\"utf-8\"><title>A&lt;B</title></head>\
<body><h1>A&lt;B</h1><p>x</p></body></html>");
}

#[test]
fn article_page_links_document_only_on_success() {
    let (status, html) = render_article_page("http://e/a?x=1&y=2", &Ok("<h1>T</h1>".to_string()));
    assert_eq!(status, 200);
    assert!(html.contains("<a download href=\"/article/pdf?url=http://e/a?x=1&amp;y=2\">Download as PDF</a>"));
    assert!(html.contains("<section class=\"prose\"><h1>T</h1></section>"));
    let (status, html) = render_article_page("http://e/a", &Err(ArticleError::Network("dns".to_string())));
    assert_eq!(status, 502);
    assert!(!html.contains("Download as PDF"));
    assert!(html.contains("<p class=\"article-error\">Error fetching article: dns</p>"));
    let (status, _) = render_article_page("http://e/a", &Err(ArticleError::Extraction));
    assert_eq!(status, 500);
}

#[test]
fn detail_page_reports_failure_kind() {
    let f = feed(4, "http://d/rss", "");
    let (status, html) = render_feed_detail_page(&f, &Err(FetchError::Network("down".to_string())));
    assert_eq!(status, 502);
    assert!(html.contains("<title>http://d/rss</title>"));
    assert!(html.contains("<p class=\"feed-error\">Error fetching RSS feed: down</p>"));
    let (_, html) = render_feed_detail_page(&f, &Err(FetchError::Parse));
    assert!(html.contains("Error parsing RSS feed"));
    let ok = parse_feed("<rss version=\"2.0\"><channel><title>D</title><link>l</link>\
<description>d</description></channel></rss>");
    let (status, _) = render_feed_detail_page(&f, &ok);
    assert_eq!(status, 200);
}

#[test]
fn headlines_page_is_framed() {
    let html = render_headlines_page(Vec::new());
    assert!(html.contains("<title>Headlines</title>"));
    assert!(html.ends_with("<h1>Headlines</h1></body></html>"));
}

#[test]
fn extraction_worker_failure_is_plain_text_error() {
    let r = extraction_failure_reply("panicked".to_string());
    assert_eq!(r.status, 500);
    assert_eq!(r.content_type, "text/plain");
    assert!(matches!(r.body, ReplyBody::Text(ref t) if t == "Error scraping article: panicked"));
}

#[test]
fn heading_entities_are_not_escaped_twice() {
    let html = "<html><body><article><h1>Tom &amp; Jerry</h1>\
<p>A story about a cat &amp; a mouse that is long enough.</p></article></body></html>";
    let a = extract_article(html, "http://e/p").ok().unwrap();
    assert_eq!(a.title, "Tom &amp; Jerry");
    assert!(format_article(&a).starts_with("<h1>Tom &amp; Jerry</h1>"));
    let page = "<html><head><title>Cats &amp; Dogs</title></head><body><p>Some body text.</p></body></html>";
    let b = extract_article(page, "http://e/p").ok().unwrap();
    assert_eq!(b.title, "Cats &amp; Dogs");
}

#[test]
fn deep_nesting_is_refused_before_extraction() {
    let deep = format!("<html><body>{}x</body></html>", "<div>".repeat(MAX_NESTING));
    assert!(html_nesting(&deep) > MAX_NESTING);
    assert!(matches!(extract_article(&deep, "http://e/p"), Err(ArticleError::Oversized)));
    let e = scrape_article("http://e/p", Ok(deep.clone())).err().unwrap();
    assert_eq!(e.message(), "Error scraping article: the page nests too deeply to be read");
    let bold = "<b>".repeat(50000);
    assert!(matches!(extract_article(&bold, "http://e/p"), Err(ArticleError::Oversized)));
}

#[test]
fn nesting_follows_open_and_closed_elements() {
    assert_eq!(html_nesting("<html><body><div><p>a</p><p>b</p></div></body></html>"), 4);
    assert_eq!(html_nesting("<ul><li>a<li>b<li>c</ul>"), 2);
    assert_eq!(html_nesting("<p>x<br><img src=a><hr></p>"), 1);
    assert_eq!(html_nesting("<DIV><Div></div></DIV>"), 2);
    assert_eq!(html_nesting("a < b and c<d"), 0);
    assert_eq!(html_nesting(""), 0);
}

#[test]
fn nesting_at_the_bound_is_extracted() {
    let inner = format!("{}<p>Some text that makes up the body of the article.</p>{}",
        "<div>".repeat(MAX_NESTING - 3), "</div>".repeat(MAX_NESTING - 3));
    let page = format!("<html><body>{inner}</body></html>");
    assert_eq!(html_nesting(&page), MAX_NESTING);
    assert!(extract_article(&page, "http://e/p").is_ok());
    let tables = format!("<html><body>{}ok</body></html>", "<table><tr><td>".repeat(MAX_NESTING / 3 - 1));
    assert!(html_nesting(&tables) <= MAX_NESTING);
    let _ = extract_article(&tables, "http://e/p");
}

#[test]
fn script_comparisons_do_not_count_as_nesting() {
    let page = format!("<html><body><script>{}</script><p>Some body text for the article here.</p></body></html>",
        "if (i<n && a<b) { x = y; }\n".repeat(400));
    assert_eq!(html_nesting(&page), 3);
    assert!(extract_article(&page, "http://e/p").is_ok());
}

#[test]
fn inline_icons_and_comments_do_not_accumulate() {
    let icon = "<svg viewBox=\"0 0 1 1\"><title>Icon</title><path d=\"M0 0\"/><circle r=\"1\"/></svg>";
    let page = format!("<html><body><div>{}<!-- <div><div> --><p title=\"a<b>\">Body text of the page.</p></div></body></html>",
        icon.repeat(400));
    assert_eq!(html_nesting(&page), 6);
    assert!(extract_article(&page, "http://e/p").is_ok());
}

#[test]
fn end_tags_close_through_ordinary_elements_only() {
    assert_eq!(html_nesting("<div><span><span></div><div>"), 3);
    assert_eq!(html_nesting("<span><div></span><span>"), 3);
    assert_eq!(html_nesting("<body></body><div></div></html><div>"), 2);
    assert_eq!(html_nesting("<div title=\"</div>\"><div>"), 2);
}

#[test]
fn nested_script_in_comment_is_not_measured() {
    let page = "<html><body><script><!--<script></script>--></script><p>x</p></body></html>";
    assert!(html_nesting(page) > MAX_NESTING);
}

#[test]
fn deeply_nested_feed_is_refused_before_reading() {
    let deep = format!("<rss version=\"2.0\" xmlns:x=\"http://x/\"><channel><title>t</title><link>l</link>\
<description>d</description>{}{}</channel></rss>", "<x:a>".repeat(MAX_FEED_NESTING), "</x:a>".repeat(MAX_FEED_NESTING));
    assert!(feed_nesting(&deep) > MAX_FEED_NESTING);
    assert!(matches!(parse_feed(&deep), Err(FetchError::Parse)));
    let huge = format!("<rss><channel>{}</channel></rss>", "<x:a>".repeat(200000));
    assert!(matches!(parse_feed(&huge), Err(FetchError::Parse)));
}

#[test]
fn feed_nesting_follows_the_xml_reader() {
    assert_eq!(feed_nesting("<?xml version=\"1.0\"?><rss><channel><item><enclosure url=\"a>b\"/></item></channel></rss>"), 3);
    assert_eq!(feed_nesting("<a><![CDATA[<b><c><d>]]><!-- <e><f> --></a>"), 1);
    assert_eq!(feed_nesting("<!DOCTYPE rss PUBLIC \"-//N//DTD RSS 0.91//EN\" \"http://x/a.dtd\"><rss><channel/></rss>"), 1);
    assert!(feed_nesting("<!DOCTYPE r [ <!ENTITY e \"x\"> ]><r/>") > MAX_FEED_NESTING);
    let within = format!("<rss version=\"2.0\"><channel><title>t</title><link>l</link><description>d</description>\
<item><title>i</title></item></channel></rss>");
    assert_eq!(feed_nesting(&within), 4);
    assert_eq!(parse_feed(&within).ok().unwrap().items.len(), 1);
}

#[test]
fn feed_descriptions_show_as_text() {
    let e = rss_newspaper::Entry {
        title: "t".to_string(),
        url: "u".to_string(),
        description: "<p>Hello <b>there</b> &amp; more</p>".to_string(),
        comments: String::new(),
    };
    assert!(rss_newspaper::EntryTemplate { entry: &e }.render()
        .contains("<div class=\"description\">Hello there &amp; more</div>"));
}
