use vstd::prelude::*;
use crate::xml_nesting::{feed_nesting, xml_nesting, MAX_FEED_NESTING};

verus! {

/// An optional text, seen as an optional sequence of characters.
pub open spec fn opt_view(o: Option<String>) -> Option<Seq<char>> {
    match o {
        Some(s) => Some(s@),
        None => None,
    }
}

/// An item as plain values: title, link, description, publish date, comments.
pub type ItemModel = (
    Option<Seq<char>>,
    Option<Seq<char>>,
    Option<Seq<char>>,
    Option<Seq<char>>,
    Option<Seq<char>>,
);

/// A channel as plain values: title, description and items in document order.
pub type ChannelModel = (Seq<char>, Seq<char>, Seq<ItemModel>);

/// One entry of a syndication feed.
pub struct FeedItem {
    pub title: Option<String>,
    pub link: Option<String>,
    pub description: Option<String>,
    pub publish_date: Option<String>,
    pub comments: Option<String>,
}

impl View for FeedItem {
    type V = ItemModel;

    open spec fn view(&self) -> ItemModel {
        (
            opt_view(self.title),
            opt_view(self.link),
            opt_view(self.description),
            opt_view(self.publish_date),
            opt_view(self.comments),
        )
    }
}

/// A parsed feed: channel metadata and its items in document order.
pub struct FeedContent {
    pub title: String,
    pub description: String,
    pub items: Vec<FeedItem>,
}

impl View for FeedContent {
    type V = ChannelModel;

    open spec fn view(&self) -> ChannelModel {
        (self.title@, self.description@, self.items@.map_values(|i: FeedItem| i@))
    }
}

/// The channel that an RSS document holds, or `None` where it is no valid RSS.
pub uninterp spec fn rss_channel_of(xml: Seq<char>) -> Option<ChannelModel>;

/// Relies on `rss::Channel::read_from` and the accessors of `rss::Channel` and
/// `rss::Item`: the channel read from the document, every item in order. The
/// reader recurses once per level of nested extension elements, so the
/// document's nesting is bounded.
#[verifier::external_body]
fn read_channel(xml: &str) -> (r: Option<FeedContent>)
    requires
        xml_nesting(xml@) <= MAX_FEED_NESTING,
    ensures
        r is None <==> rss_channel_of(xml@) is None,
        r matches Some(c) ==> rss_channel_of(xml@) == Some(c@),
{
    match rss::Channel::read_from(xml.as_bytes()) {
        Ok(c) => Some(FeedContent {
            title: c.title().to_string(),
            description: c.description().to_string(),
            items: c.items().iter().map(|i| FeedItem {
                title: i.title().map(str::to_string),
                link: i.link().map(str::to_string),
                description: i.description().map(str::to_string),
                publish_date: i.pub_date().map(str::to_string),
                comments: i.comments().map(str::to_string),
            }).collect(),
        }),
        Err(_) => None,
    }
}

/// An item carries at least a title, a link or a description.
pub open spec fn item_has_content(i: ItemModel) -> bool {
    i.0 is Some || i.1 is Some || i.2 is Some
}

/// The items that a feed keeps, in document order.
pub open spec fn kept_items(items: Seq<ItemModel>) -> Seq<ItemModel> {
    items.filter(|i: ItemModel| item_has_content(i))
}

/// The feed that a document parses to, or `None` where it is malformed. A
/// document that nests deeper than is handed to the reader counts as
/// malformed.
pub open spec fn parsed_feed(xml: Seq<char>) -> Option<ChannelModel> {
    if xml_nesting(xml) > MAX_FEED_NESTING {
        None
    } else {
        match rss_channel_of(xml) {
            Some(ch) => Some((ch.0, ch.1, kept_items(ch.2))),
            None => None,
        }
    }
}

/// Why a feed contributed no items.
pub enum FetchError {
    /// The feed could not be reached; the transport's description.
    Network(String),
    /// The feed was reached but is no valid syndication document.
    Parse,
}

/// A fetch failure as plain values.
pub enum FailureModel {
    Network(Seq<char>),
    Parse,
}

impl View for FetchError {
    type V = FailureModel;

    open spec fn view(&self) -> FailureModel {
        match self {
            FetchError::Network(m) => FailureModel::Network(m@),
            FetchError::Parse => FailureModel::Parse,
        }
    }
}

/// The message for a feed that could not be had.
pub open spec fn fetch_error_text(f: FailureModel) -> Seq<char> {
    match f {
        FailureModel::Network(m) => "Error fetching RSS feed: "@ + m,
        FailureModel::Parse => "Error parsing RSS feed"@,
    }
}

impl FetchError {
    /// The message shown for this failure; it tells an unreachable feed from a
    /// malformed one.
    pub fn message(&self) -> (r: String)
        ensures
            r@ == fetch_error_text(self@),
    {
        match self {
            FetchError::Network(m) => {
                let mut r = String::from_str("Error fetching RSS feed: ");
                r.append(m.as_str());
                r
            },
            FetchError::Parse => String::from_str("Error parsing RSS feed"),
        }
    }
}

fn item_has_content_exec(i: &FeedItem) -> (r: bool)
    ensures
        r == item_has_content(i@),
{
    i.title.is_some() || i.link.is_some() || i.description.is_some()
}

/// The channel with every item that carries no title, link or description
/// dropped; the others keep their order.
pub fn keep_items(raw: FeedContent) -> (r: FeedContent)
    ensures
        r@ == (raw@.0, raw@.1, kept_items(raw@.2)),
{
    let ghost all = raw@.2;
    let mut items: Vec<FeedItem> = Vec::new();
    for item in it: raw.items.into_iter()
        invariant
            it.seq().map_values(|i: FeedItem| i@) == all,
            items@.map_values(|i: FeedItem| i@) == kept_items(all.take(it.index() as int)),
    {
        let ghost k = it.index() as int;
        proof {
            let a = all.take(k + 1);
            reveal(Seq::filter);
            assert(a.drop_last() =~= all.take(k));
            assert(a.last() == all[k]);
            assert(item@ == all[k]);
            assert(kept_items(a) == if item_has_content(all[k]) {
                kept_items(all.take(k)).push(all[k])
            } else {
                kept_items(all.take(k))
            });
        }
        let ghost before = items@.map_values(|i: FeedItem| i@);
        if item_has_content_exec(&item) {
            items.push(item);
            proof {
                assert(items@.map_values(|i: FeedItem| i@) =~= before.push(all[k]));
            }
        }
    }
    proof {
        assert(all.take(all.len() as int) =~= all);
    }
    FeedContent { title: raw.title, description: raw.description, items }
}

/// Parses a feed document, dropping items that carry no title, link or
/// description. All or nothing: a malformed document yields no items.
pub fn parse_feed(xml: &str) -> (r: Result<FeedContent, FetchError>)
    ensures
        r is Err <==> parsed_feed(xml@) is None,
        r matches Err(e) ==> e is Parse,
        r matches Ok(c) ==> parsed_feed(xml@) == Some(c@),
{
    if feed_nesting(xml) > MAX_FEED_NESTING {
        return Err(FetchError::Parse);
    }
    match read_channel(xml) {
        Some(c) => Ok(keep_items(c)),
        None => Err(FetchError::Parse),
    }
}

/// The feed that fetching a document gave, as plain values: the transport's
/// error text, or the document.
pub open spec fn fetch_result(fetched: Result<Seq<char>, Seq<char>>) -> Result<ChannelModel, FailureModel> {
    match fetched {
        Err(m) => Err(FailureModel::Network(m)),
        Ok(xml) => match parsed_feed(xml) {
            Some(ch) => Ok(ch),
            None => Err(FailureModel::Parse),
        },
    }
}

/// The feed, given what fetching its document gave: a transport failure is
/// reported apart from a malformed document.
pub fn fetch_feed(fetched: Result<String, String>) -> (r: Result<FeedContent, FetchError>)
    ensures
        match fetch_result(match fetched {
            Ok(s) => Ok(s@),
            Err(e) => Err(e@),
        }) {
            Ok(ch) => r matches Ok(c) && c@ == ch,
            Err(f) => r matches Err(e) && e@ == f,
        },
{
    match fetched {
        Err(m) => Err(FetchError::Network(m)),
        Ok(xml) => parse_feed(xml.as_str()),
    }
}

proof fn lemma_kept_items_all(items: Seq<ItemModel>)
    requires
        forall|i: int| 0 <= i < items.len() ==> item_has_content(items[i]),
    ensures
        kept_items(items) == items,
    decreases items.len(),
{
    reveal(Seq::filter);
    if items.len() > 0 {
        lemma_kept_items_all(items.drop_last());
        assert(items.drop_last().push(items.last()) =~= items);
    }
}

/// The items of a document as read, before any is dropped.
pub open spec fn read_items(xml: Seq<char>) -> Seq<ItemModel> {
    match rss_channel_of(xml) {
        Some(ch) => ch.2,
        None => Seq::empty(),
    }
}

/// The items that a document parses to.
pub open spec fn parsed_items(xml: Seq<char>) -> Seq<ItemModel> {
    match parsed_feed(xml) {
        Some(ch) => ch.2,
        None => Seq::empty(),
    }
}

/// A document whose items each carry a title, a link or a description parses
/// to exactly those items, as many and in document order (for a document
/// within the nesting bound).
pub proof fn lemma_well_formed_items_kept(xml: Seq<char>)
    requires
        xml_nesting(xml) <= MAX_FEED_NESTING,
        rss_channel_of(xml) is Some,
        forall|i: int| 0 <= i < read_items(xml).len() ==> item_has_content(#[trigger] read_items(xml)[i]),
    ensures
        parsed_feed(xml) is Some,
        parsed_items(xml) == read_items(xml),
        parsed_items(xml).len() == read_items(xml).len(),
{
    lemma_kept_items_all(read_items(xml));
}

/// Parsing is repeatable: the same document always gives the same feed, or
/// always fails.
pub proof fn lemma_parse_repeatable(a: Seq<char>, b: Seq<char>)
    requires
        a == b,
    ensures
        parsed_feed(a) == parsed_feed(b),
{
}

} // verus!
