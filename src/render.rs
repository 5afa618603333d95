use vstd::prelude::*;
use crate::aggregate::{or_empty, Entry, EntryList, EntryModel, ListingModel};
use crate::date::{display_date, shown_date};
use crate::article::{article_error_text, ArticleError};
use crate::markup::{strip_tags, strip_tags_text};
use crate::feed::{fetch_error_text, opt_view, FailureModel, FeedContent, FeedItem, FetchError, ItemModel};
use crate::html::{append_escaped, escape_html, escaped};
use crate::store::Feed;
use crate::text::{decimal, decimal_text};

verus! {

/// The comments link of an entry, present only where it has one.
pub open spec fn comments_html(c: Seq<char>) -> Seq<char> {
    if c.len() == 0 {
        Seq::empty()
    } else {
        "<a class=\"comments\" href=\""@ + escaped(c) + "\">Comments</a>"@
    }
}

/// The markup of one headline: its texts escaped, its description (HTML in
/// feeds) shown as text with the tags left out.
pub open spec fn entry_html(e: EntryModel) -> Seq<char> {
    "<article class=\"entry\"><h3><a href=\""@ + escaped(e.1) + "\">"@ + escaped(e.0)
        + "</a></h3><div class=\"description\">"@ + strip_tags(e.2) + "</div>"@ + comments_html(e.3)
        + "</article>"@
}

/// The heading that names a feed.
pub open spec fn heading_html(url: Seq<char>) -> Seq<char> {
    "<h2>"@ + escaped(url) + "</h2>"@
}

/// The notice shown for a feed that gave no headlines, if it failed.
pub open spec fn failure_html(url: Seq<char>, f: Option<FailureModel>) -> Seq<char> {
    match f {
        None => Seq::empty(),
        Some(FailureModel::Network(m)) => heading_html(url)
            + "<p class=\"feed-error\">Could not reach this feed: "@ + escaped(m) + "</p>"@,
        Some(FailureModel::Parse) => heading_html(url)
            + "<p class=\"feed-error\">This feed could not be read as RSS.</p>"@,
    }
}

/// Each headline of a feed, under the feed's heading.
pub open spec fn entries_html(url: Seq<char>, es: Seq<EntryModel>) -> Seq<char>
    decreases es.len(),
{
    if es.len() == 0 {
        Seq::empty()
    } else {
        entries_html(url, es.drop_last()) + heading_html(url) + entry_html(es.last())
    }
}

/// The markup of one feed's listing.
pub open spec fn listing_html(l: ListingModel) -> Seq<char> {
    failure_html(l.0, l.2) + entries_html(l.0, l.1)
}

/// The markup of all listings, in order.
pub open spec fn listings_html(ls: Seq<ListingModel>) -> Seq<char>
    decreases ls.len(),
{
    if ls.len() == 0 {
        Seq::empty()
    } else {
        listings_html(ls.drop_last()) + listing_html(ls.last())
    }
}

/// The fixed start page.
pub open spec fn root_html() -> Seq<char> {
    "<!DOCTYPE html><html><head><title>Feeds</title></head><body><h1>Feeds</h1><nav><a href=\"/feeds\">Feeds</a> <a href=\"/headlines\">Headlines</a></nav></body></html>"@
}

/// The start page.
pub struct RootTemplate {}

impl RootTemplate {
    pub fn render(&self) -> (r: String)
        ensures
            r@ == root_html(),
    {
        String::from_str(
            "<!DOCTYPE html><html><head><title>Feeds</title></head><body><h1>Feeds</h1><nav><a href=\"/feeds\">Feeds</a> <a href=\"/headlines\">Headlines</a></nav></body></html>",
        )
    }
}

/// The markup of one headline.
pub struct EntryTemplate<'a> {
    pub entry: &'a Entry,
}

fn append_entry(out: &mut String, e: &Entry)
    ensures
        final(out)@ == old(out)@ + entry_html(e@),
{
    let ghost start = out@;
    out.append("<article class=\"entry\"><h3><a href=\"");
    append_escaped(out, e.url.as_str());
    out.append("\">");
    append_escaped(out, e.title.as_str());
    out.append("</a></h3><div class=\"description\">");
    out.append(strip_tags_text(e.description.as_str()).as_str());
    out.append("</div>");
    let ghost mid = out@;
    if e.comments.as_str().unicode_len() > 0 {
        out.append("<a class=\"comments\" href=\"");
        append_escaped(out, e.comments.as_str());
        out.append("\">Comments</a>");
    }
    assert(out@ =~= mid + comments_html(e@.3));
    out.append("</article>");
    assert(out@ =~= start + entry_html(e@));
}

impl<'a> EntryTemplate<'a> {
    pub fn render(&self) -> (r: String)
        ensures
            r@ == entry_html(self.entry@),
    {
        let mut r = String::new();
        append_entry(&mut r, self.entry);
        assert(r@ =~= entry_html(self.entry@));
        r
    }
}

fn append_heading(out: &mut String, url: &str)
    ensures
        final(out)@ == old(out)@ + heading_html(url@),
{
    let ghost start = out@;
    out.append("<h2>");
    append_escaped(out, url);
    out.append("</h2>");
    assert(out@ =~= start + heading_html(url@));
}

fn append_listing(out: &mut String, l: &EntryList)
    ensures
        final(out)@ == old(out)@ + listing_html(l@),
{
    let ghost start = out@;
    let url = l.feed_url.as_str();
    match &l.failure {
        None => {},
        Some(FetchError::Network(m)) => {
            append_heading(out, url);
            out.append("<p class=\"feed-error\">Could not reach this feed: ");
            append_escaped(out, m.as_str());
            out.append("</p>");
        },
        Some(FetchError::Parse) => {
            append_heading(out, url);
            out.append("<p class=\"feed-error\">This feed could not be read as RSS.</p>");
        },
    }
    assert(out@ =~= start + failure_html(l@.0, l@.2));
    let ghost mid = out@;
    let ghost es = l@.1;
    let mut i: usize = 0;
    while i < l.entries.len()
        invariant
            es == l.entries@.map_values(|e: Entry| e@),
            i <= l.entries.len(),
            url@ == l@.0,
            out@ == mid + entries_html(l@.0, es.take(i as int)),
        decreases l.entries.len() - i,
    {
        append_heading(out, url);
        append_entry(out, &l.entries[i]);
        proof {
            let t = es.take(i + 1);
            assert(t.drop_last() =~= es.take(i as int));
            assert(t.last() == l.entries@[i as int]@);
        }
        i = i + 1;
    }
    assert(es.take(i as int) =~= es);
    assert(out@ =~= start + listing_html(l@));
}

/// The headline page: for each feed in order, a notice where it failed and
/// each of its headlines under the feed's heading.
pub fn render_feed_html(feeds: Vec<EntryList>) -> (r: String)
    ensures
        r@ == listings_html(feeds@.map_values(|l: EntryList| l@)),
{
    let ghost ls = feeds@.map_values(|l: EntryList| l@);
    let mut r = String::new();
    let mut i: usize = 0;
    while i < feeds.len()
        invariant
            ls == feeds@.map_values(|l: EntryList| l@),
            i <= feeds.len(),
            r@ == listings_html(ls.take(i as int)),
        decreases feeds.len() - i,
    {
        append_listing(&mut r, &feeds[i]);
        proof {
            let t = ls.take(i + 1);
            assert(t.drop_last() =~= ls.take(i as int));
            assert(t.last() == feeds@[i as int]@);
        }
        i = i + 1;
    }
    assert(ls.take(i as int) =~= ls);
    r
}

/// The name a saved feed is listed under: its title, or its URL while it has none.
pub open spec fn feed_label(f: Feed) -> Seq<char> {
    if f.title@.len() > 0 {
        f.title@
    } else {
        f.url@
    }
}

/// The list item of one saved feed: a link to its detail page and a control
/// that deletes it.
pub open spec fn feed_item_html(f: Feed) -> Seq<char> {
    "<li><a href=\"/feeds/"@ + decimal(f.id as int) + "\">"@ + escaped(feed_label(f))
        + "</a> <button hx-delete=\"/feeds/"@ + decimal(f.id as int)
        + "\" hx-target=\"#feeds\">Delete</button></li>"@
}

/// The items of the feed list, in the store's order.
pub open spec fn feed_items_html(fs: Seq<Feed>) -> Seq<char>
    decreases fs.len(),
{
    if fs.len() == 0 {
        Seq::empty()
    } else {
        feed_items_html(fs.drop_last()) + feed_item_html(fs.last())
    }
}

/// The list of saved feeds.
pub open spec fn feeds_html(fs: Seq<Feed>) -> Seq<char> {
    "<ul id=\"feeds\">"@ + feed_items_html(fs) + "</ul>"@
}

/// The list of saved feeds.
pub struct FeedTemplate<'a> {
    pub feeds: &'a Vec<Feed>,
}

fn append_feed_item(out: &mut String, f: &Feed)
    ensures
        final(out)@ == old(out)@ + feed_item_html(*f),
{
    let ghost start = out@;
    let id = decimal_text(f.id);
    out.append("<li><a href=\"/feeds/");
    out.append(id.as_str());
    out.append("\">");
    if f.title.as_str().unicode_len() > 0 {
        append_escaped(out, f.title.as_str());
    } else {
        append_escaped(out, f.url.as_str());
    }
    out.append("</a> <button hx-delete=\"/feeds/");
    out.append(id.as_str());
    out.append("\" hx-target=\"#feeds\">Delete</button></li>");
    assert(out@ =~= start + feed_item_html(*f));
}

impl<'a> FeedTemplate<'a> {
    pub fn render(&self) -> (r: String)
        ensures
            r@ == feeds_html(self.feeds@),
    {
        let fs = self.feeds;
        let mut r = String::from_str("<ul id=\"feeds\">");
        let ghost start = r@;
        let mut i: usize = 0;
        while i < fs.len()
            invariant
                i <= fs.len(),
                r@ == start + feed_items_html(fs@.take(i as int)),
            decreases fs.len() - i,
        {
            append_feed_item(&mut r, &fs[i]);
            proof {
                let t = fs@.take(i + 1);
                assert(t.drop_last() =~= fs@.take(i as int));
            }
            i = i + 1;
        }
        assert(fs@.take(i as int) =~= fs@);
        r.append("</ul>");
        assert(r@ =~= feeds_html(fs@));
        r
    }
}

/// The title of an item on a feed's detail page: a link to its reading view
/// where the item has a link, plain text where it has none.
pub open spec fn detail_title_html(feed_id: int, i: ItemModel) -> Seq<char> {
    "<section class=\"item\"><p class=\"title\">"@ + match i.1 {
        Some(l) => "<a href=\"/article?url="@ + escaped(l) + "&amp;feed_id="@ + decimal(feed_id)
            + "\">"@ + escaped(or_empty(i.0)) + "</a>"@,
        None => escaped(or_empty(i.0)),
    } + "</p>"@
}

/// The links of an item to the original and to the document; none where the
/// item has no link.
pub open spec fn detail_links_html(link: Option<Seq<char>>) -> Seq<char> {
    match link {
        Some(l) => " <a href=\""@ + escaped(l) + "\">Read Original</a> <a download href=\"/article/pdf?url="@
            + escaped(l) + "\">Download as PDF</a>"@,
        None => Seq::empty(),
    }
}

/// The date of an item and its links to the original and to the document.
pub open spec fn detail_meta_html(i: ItemModel) -> Seq<char> {
    let date = or_empty(i.3);
    "<p class=\"meta\"><time datetime=\""@ + escaped(date) + "\" title=\""@ + escaped(date) + "\">"@
        + escaped(shown_date(date)) + "</time>"@ + detail_links_html(i.1) + "</p>"@
}

/// The description of an item, as text with the tags left out, closing its
/// section.
pub open spec fn detail_description_html(i: ItemModel) -> Seq<char> {
    "<div class=\"description\">"@ + strip_tags(or_empty(i.2)) + "</div></section>"@
}

/// One item on a feed's detail page: its title linking to the reading view,
/// its date, links to the original and to the document, and its description.
pub open spec fn detail_item_html(feed_id: int, i: ItemModel) -> Seq<char> {
    detail_title_html(feed_id, i) + detail_meta_html(i) + detail_description_html(i)
}

fn append_escaped_opt(out: &mut String, o: &Option<String>)
    ensures
        final(out)@ == old(out)@ + escaped(or_empty(opt_view(*o))),
{
    match o {
        Some(t) => append_escaped(out, t.as_str()),
        None => {
            assert(escaped(Seq::<char>::empty()) =~= Seq::<char>::empty());
            assert(out@ =~= out@ + Seq::<char>::empty());
        },
    }
}

fn append_detail_title(out: &mut String, id: &str, feed_id: i64, item: &FeedItem)
    requires
        id@ == decimal(feed_id as int),
    ensures
        final(out)@ == old(out)@ + detail_title_html(feed_id as int, item@),
{
    let ghost start = out@;
    out.append("<section class=\"item\"><p class=\"title\">");
    let ghost mid = out@;
    match &item.link {
        Some(l) => {
            out.append("<a href=\"/article?url=");
            append_escaped(out, l.as_str());
            out.append("&amp;feed_id=");
            out.append(id);
            out.append("\">");
            append_escaped_opt(out, &item.title);
            out.append("</a>");
        },
        None => append_escaped_opt(out, &item.title),
    }
    out.append("</p>");
    assert(out@ =~= start + detail_title_html(feed_id as int, item@));
}

fn append_detail_links(out: &mut String, link: &Option<String>)
    ensures
        final(out)@ == old(out)@ + detail_links_html(opt_view(*link)),
{
    let ghost start = out@;
    match link {
        Some(l) => {
            let escaped_link = escape_html(l.as_str());
            out.append(" <a href=\"");
            out.append(escaped_link.as_str());
            out.append("\">Read Original</a> <a download href=\"/article/pdf?url=");
            out.append(escaped_link.as_str());
            out.append("\">Download as PDF</a>");
        },
        None => {},
    }
    assert(out@ =~= start + detail_links_html(opt_view(*link)));
}

fn append_detail_meta(out: &mut String, item: &FeedItem)
    ensures
        final(out)@ == old(out)@ + detail_meta_html(item@),
{
    let ghost start = out@;
    let date = match &item.publish_date {
        Some(d) => escape_html(d.as_str()),
        None => String::new(),
    };
    assert(date@ == escaped(or_empty(item@.3)));
    out.append("<p class=\"meta\"><time datetime=\"");
    out.append(date.as_str());
    out.append("\" title=\"");
    out.append(date.as_str());
    out.append("\">");
    let raw = match &item.publish_date {
        Some(d) => d.clone(),
        None => String::new(),
    };
    let shown = display_date(raw.as_str());
    append_escaped(out, shown.as_str());
    out.append("</time>");
    append_detail_links(out, &item.link);
    out.append("</p>");
    assert(out@ =~= start + detail_meta_html(item@));
}

fn append_detail_item(out: &mut String, id: &str, feed_id: i64, item: &FeedItem)
    requires
        id@ == decimal(feed_id as int),
    ensures
        final(out)@ == old(out)@ + detail_item_html(feed_id as int, item@),
{
    let ghost start = out@;
    append_detail_title(out, id, feed_id, item);
    append_detail_meta(out, item);
    out.append("<div class=\"description\">");
    let description = match &item.description {
        Some(d) => strip_tags_text(d.as_str()),
        None => strip_tags_text(""),
    };
    proof {
        reveal_strlit("");
    }
    out.append(description.as_str());
    out.append("</div></section>");
    assert(out@ =~= start + detail_item_html(feed_id as int, item@));
}

/// The items of a feed's detail page, in feed order.
pub open spec fn detail_items_html(feed_id: int, items: Seq<ItemModel>) -> Seq<char>
    decreases items.len(),
{
    if items.len() == 0 {
        Seq::empty()
    } else {
        detail_items_html(feed_id, items.drop_last()) + detail_item_html(feed_id, items.last())
    }
}

/// A feed's detail page: a trail back to the feed list, then its items.
pub open spec fn feed_detail_html(f: Feed, items: Seq<ItemModel>) -> Seq<char> {
    "<nav class=\"breadcrumbs\"><a href=\"/feeds\">Feeds</a> &gt; <a href=\"/feeds/"@ + decimal(
        f.id as int,
    ) + "\">"@ + escaped(feed_label(f)) + "</a></nav>"@ + detail_items_html(f.id as int, items)
}

/// The detail page of a saved feed, given its parsed document.
pub fn render_feed_detail(feed: &Feed, content: &FeedContent) -> (r: String)
    ensures
        r@ == feed_detail_html(*feed, content@.2),
{
    let id = decimal_text(feed.id);
    let mut r = String::from_str("<nav class=\"breadcrumbs\"><a href=\"/feeds\">Feeds</a> &gt; <a href=\"/feeds/");
    let ghost s0 = r@;
    r.append(id.as_str());
    r.append("\">");
    if feed.title.as_str().unicode_len() > 0 {
        append_escaped(&mut r, feed.title.as_str());
    } else {
        append_escaped(&mut r, feed.url.as_str());
    }
    r.append("</a></nav>");
    let ghost start = r@;
    let ghost items = content@.2;
    let mut i: usize = 0;
    while i < content.items.len()
        invariant
            items == content.items@.map_values(|i: FeedItem| i@),
            id@ == decimal(feed.id as int),
            i <= content.items.len(),
            r@ == start + detail_items_html(feed.id as int, items.take(i as int)),
        decreases content.items.len() - i,
    {
        append_detail_item(&mut r, id.as_str(), feed.id, &content.items[i]);
        proof {
            let t = items.take(i + 1);
            assert(t.drop_last() =~= items.take(i as int));
            assert(t.last() == content.items@[i as int]@);
        }
        i = i + 1;
    }
    assert(items.take(i as int) =~= items);
    assert(r@ =~= feed_detail_html(*feed, items));
    r
}

impl Feed {
    /// The name the feed is listed under.
    pub fn label(&self) -> (r: String)
        ensures
            r@ == feed_label(*self),
    {
        if self.title.as_str().unicode_len() > 0 {
            self.title.clone()
        } else {
            self.url.clone()
        }
    }
}

/// A whole page: its title, escaped, in the head and as the heading, then the body.
pub open spec fn page_html(title: Seq<char>, body: Seq<char>) -> Seq<char> {
    "<!DOCTYPE html><html><head><meta charset=\"utf-8\"><title>"@ + escaped(title)
        + "</title></head><body><h1>"@ + escaped(title) + "</h1>"@ + body + "</body></html>"@
}

/// A whole page with the given title and body.
pub fn render_page(title: &str, body: &str) -> (r: String)
    ensures
        r@ == page_html(title@, body@),
{
    let t = escape_html(title);
    let mut r = String::from_str("<!DOCTYPE html><html><head><meta charset=\"utf-8\"><title>");
    r.append(t.as_str());
    r.append("</title></head><body><h1>");
    r.append(t.as_str());
    r.append("</h1>");
    r.append(body);
    r.append("</body></html>");
    assert(r@ =~= page_html(title@, body@));
    r
}

/// The notice shown for a feed whose document could not be had.
pub open spec fn feed_notice_html(f: FailureModel) -> Seq<char> {
    "<p class=\"feed-error\">"@ + escaped(fetch_error_text(f)) + "</p>"@
}

/// The detail page of a saved feed and its status, given what fetching and
/// parsing its document gave: its items, or a notice that tells an
/// unreachable feed from a malformed one.
pub fn render_feed_detail_page(feed: &Feed, content: &Result<FeedContent, FetchError>) -> (r: (
    u16,
    String,
))
    ensures
        match content {
            Ok(c) => r.0 == 200 && r.1@ == page_html(feed_label(*feed), feed_detail_html(*feed, c@.2)),
            Err(e) => r.0 == 502 && r.1@ == page_html(feed_label(*feed), feed_notice_html(e@)),
        },
{
    let title = feed.label();
    match content {
        Ok(c) => (200, render_page(title.as_str(), render_feed_detail(feed, c).as_str())),
        Err(e) => {
            let mut notice = String::from_str("<p class=\"feed-error\">");
            append_escaped(&mut notice, e.message().as_str());
            notice.append("</p>");
            assert(notice@ =~= feed_notice_html(e@));
            (502, render_page(title.as_str(), notice.as_str()))
        },
    }
}

/// The headline page: every listing under one page.
pub fn render_headlines_page(feeds: Vec<EntryList>) -> (r: String)
    ensures
        r@ == page_html("Headlines"@, listings_html(feeds@.map_values(|l: EntryList| l@))),
{
    let body = render_feed_html(feeds);
    render_page("Headlines", body.as_str())
}

/// The reading view of an article with a link to it as a document.
pub open spec fn reading_view_html(url: Seq<char>, page: Seq<char>) -> Seq<char> {
    "<p><a download href=\"/article/pdf?url="@ + escaped(url)
        + "\">Download as PDF</a></p><section class=\"prose\">"@ + page + "</section>"@
}

/// The notice shown where an article cannot be had; it offers no document.
pub open spec fn article_notice_html(e: &ArticleError) -> Seq<char> {
    "<p class=\"article-error\">"@ + escaped(article_error_text(e)) + "</p>"@
}

/// The status sent for an article that cannot be had: the upstream's fault
/// where the page was unreachable, the server's otherwise.
pub open spec fn article_error_status(e: &ArticleError) -> u16 {
    match e {
        ArticleError::Network(_) => 502,
        _ => 500,
    }
}

/// The article page and its status: the reading view with a link to the
/// document on success, a notice and no such link on failure.
pub fn render_article_page(url: &str, view: &Result<String, ArticleError>) -> (r: (u16, String))
    ensures
        match view {
            Ok(p) => r.0 == 200 && r.1@ == page_html("Article"@, reading_view_html(url@, p@)),
            Err(e) => r.0 == article_error_status(e) && r.1@ == page_html(
                "Article"@,
                article_notice_html(e),
            ),
        },
{
    match view {
        Ok(p) => {
            let mut body = String::from_str("<p><a download href=\"/article/pdf?url=");
            append_escaped(&mut body, url);
            body.append("\">Download as PDF</a></p><section class=\"prose\">");
            body.append(p.as_str());
            body.append("</section>");
            assert(body@ =~= reading_view_html(url@, p@));
            (200, render_page("Article", body.as_str()))
        },
        Err(e) => {
            let mut body = String::from_str("<p class=\"article-error\">");
            append_escaped(&mut body, e.message().as_str());
            body.append("</p>");
            assert(body@ =~= article_notice_html(e));
            let status: u16 = match e {
                ArticleError::Network(_) => 502,
                _ => 500,
            };
            (status, render_page("Article", body.as_str()))
        },
    }
}

} // verus!
