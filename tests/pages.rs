use rss_newspaper::{
    decimal_text, display_date, parse_feed, render_feed_detail, Feed, FeedTemplate,
};

#[test]
fn rss_date_is_shown_as_day() {
    assert_eq!(display_date("Thu, 23 May 2024 14:20:31 +0000"), "Thu, 23 May 2024");
    assert_eq!(display_date("Mon, 01 Jan 2024 00:00:00 +0100"), "Mon, 01 Jan 2024");
}

#[test]
fn unreadable_date_shows_as_written() {
    assert_eq!(display_date(""), "");
    assert_eq!(display_date("2024-05-23"), "2024-05-23");
}

#[test]
fn decimal_gives_exact_digits() {
    assert_eq!(decimal_text(0), "0");
    assert_eq!(decimal_text(42), "42");
    assert_eq!(decimal_text(-7), "-7");
    assert_eq!(decimal_text(i64::MAX), "9223372036854775807");
    assert_eq!(decimal_text(i64::MIN), "-9223372036854775808");
}

#[test]
fn feed_list_links_and_deletes() {
    let feeds = vec![
        Feed { id: 3, url: "http://a/rss".to_string(), title: "A & Co".to_string(),
            description: String::new() },
        Feed { id: 12, url: "http://b/rss".to_string(), title: String::new(),
            description: String::new() },
    ];
    assert_eq!(FeedTemplate { feeds: &feeds }.render(),
        "<ul id=\"feeds\"><li><a href=\"/feeds/3\">A &amp; Co</a> <button hx-delete=\"/feeds/3\" \
hx-target=\"#feeds\">Delete</button></li><li><a href=\"/feeds/12\">http://b/rss</a> \
<button hx-delete=\"/feeds/12\" hx-target=\"#feeds\">Delete</button></li></ul>");
    assert_eq!(FeedTemplate { feeds: &Vec::new() }.render(), "<ul id=\"feeds\"></ul>");
}

#[test]
fn feed_detail_lists_items() {
    let doc = "<rss version=\"2.0\"><channel><title>Chan</title><link>l</link><description>d</description>\
<item><title>Hello</title><link>http://x/1</link><description>Hi</description>\
<pubDate>Thu, 23 May 2024 14:20:31 +0000</pubDate></item></channel></rss>";
    let content = parse_feed(doc).ok().unwrap();
    let feed = Feed { id: 5, url: "http://x/rss".to_string(), title: "Chan".to_string(),
        description: "d".to_string() };
    assert_eq!(render_feed_detail(&feed, &content),
        "<nav class=\"breadcrumbs\"><a href=\"/feeds\">Feeds</a> &gt; <a href=\"/feeds/5\">Chan</a></nav>\
<section class=\"item\"><p class=\"title\"><a href=\"/article?url=http://x/1&amp;feed_id=5\">Hello</a></p>\
<p class=\"meta\"><time datetime=\"Thu, 23 May 2024 14:20:31 +0000\" \
title=\"Thu, 23 May 2024 14:20:31 +0000\">Thu, 23 May 2024</time> \
<a href=\"http://x/1\">Read Original</a> <a download href=\"/article/pdf?url=http://x/1\">Download as PDF</a></p>\
<div class=\"description\">Hi</div></section>");
}
