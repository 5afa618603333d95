use vstd::prelude::*;
use crate::feed::{
    opt_view, parse_feed, parsed_feed, FailureModel, FeedContent, FeedItem, FetchError, ItemModel,
};
use crate::store::Feed;

verus! {

/// An entry as plain values: title, link, description, comments.
pub type EntryModel = (Seq<char>, Seq<char>, Seq<char>, Seq<char>);

/// One headline of the aggregated listing.
pub struct Entry {
    pub title: String,
    pub url: String,
    pub description: String,
    pub comments: String,
}

impl View for Entry {
    type V = EntryModel;

    open spec fn view(&self) -> EntryModel {
        (self.title@, self.url@, self.description@, self.comments@)
    }
}

/// A missing text reads as the empty one.
pub open spec fn or_empty(o: Option<Seq<char>>) -> Seq<char> {
    match o {
        Some(s) => s,
        None => Seq::empty(),
    }
}

/// The text a headline is shown under: the item's title, else its link,
/// else nothing.
pub open spec fn headline_title(i: ItemModel) -> Seq<char> {
    match i.0 {
        Some(t) => t,
        None => or_empty(i.1),
    }
}

/// The headline made of an item.
pub open spec fn entry_of(i: ItemModel) -> EntryModel {
    (headline_title(i), or_empty(i.1), or_empty(i.2), or_empty(i.4))
}

/// The headlines of a feed's items: one for each, in feed order.
pub open spec fn entries_model(items: Seq<ItemModel>) -> Seq<EntryModel> {
    items.map_values(|i: ItemModel| entry_of(i))
}

/// The headlines of one feed, or why it has none.
pub struct EntryList {
    pub feed_url: String,
    pub entries: Vec<Entry>,
    pub failure: Option<FetchError>,
}

/// A feed's listing as plain values: its URL, headlines and failure.
pub type ListingModel = (Seq<char>, Seq<EntryModel>, Option<FailureModel>);

impl View for EntryList {
    type V = ListingModel;

    open spec fn view(&self) -> ListingModel {
        (
            self.feed_url@,
            self.entries@.map_values(|e: Entry| e@),
            match self.failure {
                Some(f) => Some(f@),
                None => None,
            },
        )
    }
}

/// What fetching a feed gave: its document, or the transport's error text.
pub open spec fn fetched_view(f: Result<String, String>) -> Result<Seq<char>, Seq<char>> {
    match f {
        Ok(s) => Ok(s@),
        Err(e) => Err(e@),
    }
}

/// The listing of one feed, given what fetching it gave.
pub open spec fn listing_of(url: Seq<char>, fetched: Result<Seq<char>, Seq<char>>) -> ListingModel {
    match fetched {
        Err(m) => (url, Seq::empty(), Some(FailureModel::Network(m))),
        Ok(xml) => match parsed_feed(xml) {
            Some(ch) => (url, entries_model(ch.2), None),
            None => (url, Seq::empty(), Some(FailureModel::Parse)),
        },
    }
}

/// The listings of many feeds, each from its own fetch alone.
pub open spec fn listings(urls: Seq<Seq<char>>, fetched: Seq<Result<Seq<char>, Seq<char>>>) -> Seq<
    ListingModel,
> {
    Seq::new(urls.len(), |i: int| listing_of(urls[i], fetched[i]))
}

fn copy_opt(o: &Option<String>) -> (r: String)
    ensures
        r@ == or_empty(opt_view(*o)),
{
    match o {
        Some(s) => s.clone(),
        None => String::new(),
    }
}

/// The headlines of a parsed feed: one for each of its items, in order.
pub fn entries_of(content: &FeedContent) -> (r: Vec<Entry>)
    ensures
        r@.map_values(|e: Entry| e@) == entries_model(content@.2),
{
    let ghost all = content@.2;
    let mut r: Vec<Entry> = Vec::new();
    let mut i: usize = 0;
    while i < content.items.len()
        invariant
            all == content.items@.map_values(|i: FeedItem| i@),
            i <= content.items.len(),
            r@.map_values(|e: Entry| e@) == entries_model(all.take(i as int)),
        decreases content.items.len() - i,
    {
        let item = &content.items[i];
        let ghost before = r@.map_values(|e: Entry| e@);
        let title = match &item.title {
            Some(t) => t.clone(),
            None => copy_opt(&item.link),
        };
        let e = Entry {
            title,
            url: copy_opt(&item.link),
            description: copy_opt(&item.description),
            comments: copy_opt(&item.comments),
        };
        r.push(e);
        proof {
            assert(item@ == all[i as int]);
            assert(r@.map_values(|e: Entry| e@) =~= before.push(entry_of(all[i as int])));
            assert(entries_model(all.take(i + 1)) =~= entries_model(all.take(i as int)).push(
                entry_of(all[i as int]),
            ));
        }
        i = i + 1;
    }
    proof {
        assert(all.take(i as int) =~= all);
    }
    r
}

/// The listing of one feed from what fetching it gave: its headlines, or no
/// headlines and a note saying whether it was unreachable or malformed.
pub fn feed_entries(feed_url: &str, fetched: Result<String, String>) -> (r: EntryList)
    ensures
        r@ == listing_of(feed_url@, fetched_view(fetched)),
{
    let url = feed_url.to_owned();
    match fetched {
        Err(m) => {
            let r = EntryList { feed_url: url, entries: Vec::new(), failure: Some(FetchError::Network(m)) };
            assert(r@.1 =~= Seq::<EntryModel>::empty());
            r
        },
        Ok(xml) => match parse_feed(xml.as_str()) {
            Ok(content) => {
                let entries = entries_of(&content);
                EntryList { feed_url: url, entries, failure: None }
            },
            Err(_) => {
                let r = EntryList { feed_url: url, entries: Vec::new(), failure: Some(FetchError::Parse) };
                assert(r@.1 =~= Seq::<EntryModel>::empty());
                r
            },
        },
    }
}

/// The listings of all saved feeds, `fetched[i]` being what fetching
/// `feeds[i]` gave. Each feed's listing depends on its own fetch alone.
pub fn collect_entries(feeds: &Vec<Feed>, fetched: Vec<Result<String, String>>) -> (r: Vec<EntryList>)
    requires
        fetched.len() == feeds.len(),
    ensures
        r@.map_values(|l: EntryList| l@) == listings(
            feeds@.map_values(|f: Feed| f.url@),
            fetched@.map_values(|f: Result<String, String>| fetched_view(f)),
        ),
{
    let ghost urls = feeds@.map_values(|f: Feed| f.url@);
    let ghost fs = fetched@.map_values(|f: Result<String, String>| fetched_view(f));
    let mut r: Vec<EntryList> = Vec::new();
    for f in it: fetched.into_iter()
        invariant
            it.seq().map_values(|f: Result<String, String>| fetched_view(f)) == fs,
            fs.len() == feeds.len(),
            urls == feeds@.map_values(|f: Feed| f.url@),
            r.len() == it.index(),
            forall|k: int| 0 <= k < r.len() ==> #[trigger] r@[k]@ == listing_of(urls[k], fs[k]),
    {
        let i = r.len();
        proof {
            assert(fetched_view(f) == fs[i as int]);
        }
        let l = feed_entries(feeds[i].url.as_str(), f);
        r.push(l);
    }
    assert(r@.map_values(|l: EntryList| l@) =~= listings(urls, fs));
    r
}

/// A feed that cannot be reached contributes no headlines and a failure note,
/// and every other feed's listing is exactly what it would be had that feed
/// been reached: one failure never empties the whole listing.
pub proof fn lemma_unreachable_feed_isolated(
    urls: Seq<Seq<char>>,
    a: Seq<Result<Seq<char>, Seq<char>>>,
    b: Seq<Result<Seq<char>, Seq<char>>>,
    j: int,
)
    requires
        urls.len() == a.len(),
        a.len() == b.len(),
        0 <= j < a.len(),
        a[j] is Err,
        forall|i: int| 0 <= i < a.len() && i != j ==> a[i] == b[i],
    ensures
        listings(urls, a)[j].1.len() == 0,
        listings(urls, a)[j].2 matches Some(FailureModel::Network(_)),
        forall|i: int| 0 <= i < a.len() && i != j ==> listings(urls, a)[i] == listings(urls, b)[i],
{
}

} // verus!
