//! Feed aggregation and article pipeline: URL validation, feed parsing,
//! per-feed failure isolation, article extraction and the responses built
//! around document rendering.

pub mod aggregate;
pub mod article;
pub mod date;
pub mod document;
pub mod feed;
pub mod html;
pub mod markup;
pub mod nesting;
pub mod render;
pub mod store;
pub mod text;
pub mod validate;
pub mod xml_nesting;

pub use aggregate::{collect_entries, entries_of, feed_entries, Entry, EntryList};
pub use article::{
    article_from_readable, extract_article, format_article, scrape_article, ArticleError,
    ExtractedArticle,
};
pub use date::{display_date, show_read_date};
pub use document::{
    extraction_failure_reply, finish_article_pdf, start_article_pdf, HttpReply, PdfStep,
    RenderOutcome, ReplyBody,
};
pub use feed::{fetch_feed, keep_items, parse_feed, FeedContent, FeedItem, FetchError};
pub use html::{append_escaped, escape_html};
pub use markup::{first_element_text, trim_text};
pub use render::{
    render_article_page, render_feed_detail, render_feed_detail_page, render_feed_html,
    render_headlines_page, render_page, EntryTemplate, FeedTemplate, RootTemplate,
};
pub use store::{
    deletion_outcome, found_feed, new_feed_row, refresh_feed, Feed, NewFeed, StoreError,
};
pub use nesting::{html_nesting, MAX_NESTING};
pub use xml_nesting::{feed_nesting, MAX_FEED_NESTING};
pub use text::{ascii_lowercase, contains_text, decimal_text};
pub use validate::{
    finish_feed_probe, is_feed_content_type, is_valid_url, is_web_scheme_text, start_feed_probe,
    ProbeStep,
};
