use vstd::prelude::*;
use crate::aggregate::fetched_view;
use crate::feed::{fetch_error_text, fetch_feed, fetch_result, FetchError};

verus! {

/// A saved feed: its row in the feed table.
pub struct Feed {
    pub id: i64,
    pub url: String,
    pub title: String,
    pub description: String,
}

/// A feed row about to be inserted; the store assigns its id.
pub struct NewFeed {
    pub url: String,
    pub title: String,
    pub description: String,
}

/// Why a store operation failed.
pub enum StoreError {
    /// The URL is malformed or does not serve a feed.
    InvalidInput,
    /// No feed has the id asked for.
    NotFound,
    /// The feed's document could not be had.
    Fetch(FetchError),
    /// The persistence layer failed; its description.
    Store(String),
}

/// The status and message sent for a store error: a rejected URL is the
/// client's error, an unknown id is not found, an unusable feed is the
/// upstream's fault, and a failing store is the server's.
pub open spec fn store_error_reply(e: &StoreError) -> (u16, Seq<char>) {
    match e {
        StoreError::InvalidInput => (400, "Invalid RSS feed"@),
        StoreError::NotFound => (404, "No such feed"@),
        StoreError::Fetch(f) => (502, fetch_error_text(f@)),
        StoreError::Store(m) => (500, "Store error: "@ + m@),
    }
}

impl StoreError {
    /// The status and message sent for this error.
    pub fn reply(&self) -> (r: (u16, String))
        ensures
            r.0 == store_error_reply(self).0,
            r.1@ == store_error_reply(self).1,
    {
        match self {
            StoreError::InvalidInput => (400, String::from_str("Invalid RSS feed")),
            StoreError::NotFound => (404, String::from_str("No such feed")),
            StoreError::Fetch(f) => (502, f.message()),
            StoreError::Store(m) => {
                let mut r = String::from_str("Store error: ");
                r.append(m.as_str());
                (500, r)
            },
        }
    }
}

/// The row to insert for `url`, given the validator's verdict on it and what
/// fetching its document gave. Nothing is stored for an invalid URL.
pub fn new_feed_row(url: &str, is_feed: bool, fetched: Result<String, String>) -> (r: Result<NewFeed, StoreError>)
    ensures
        !is_feed ==> r matches Err(StoreError::InvalidInput),
        is_feed ==> match fetch_result(fetched_view(fetched)) {
            Ok(ch) => r matches Ok(n) && n.url@ == url@ && n.title@ == ch.0 && n.description@ == ch.1,
            Err(f) => r matches Err(StoreError::Fetch(e)) && e@ == f,
        },
{
    if !is_feed {
        return Err(StoreError::InvalidInput);
    }
    match fetch_feed(fetched) {
        Ok(c) => Ok(NewFeed { url: url.to_owned(), title: c.title, description: c.description }),
        Err(e) => Err(StoreError::Fetch(e)),
    }
}

/// A feed with its cached title and description refreshed from what fetching
/// its document gave. Best effort: where that failed, the row is kept as it was
/// and the failure is returned beside it.
pub fn refresh_feed(feed: Feed, fetched: Result<String, String>) -> (r: (Feed, Option<FetchError>))
    ensures
        r.0.id == feed.id,
        r.0.url@ == feed.url@,
        match fetch_result(fetched_view(fetched)) {
            Ok(ch) => r.0.title@ == ch.0 && r.0.description@ == ch.1 && r.1 is None,
            Err(f) => r.0.title@ == feed.title@ && r.0.description@ == feed.description@
                && (r.1 matches Some(e) && e@ == f),
        },
{
    match fetch_feed(fetched) {
        Ok(c) => (Feed { id: feed.id, url: feed.url, title: c.title, description: c.description }, None),
        Err(e) => (feed, Some(e)),
    }
}

/// The feed a lookup by id found, or `NotFound`.
pub fn found_feed(row: Option<Feed>) -> (r: Result<Feed, StoreError>)
    ensures
        row is None <==> r matches Err(StoreError::NotFound),
        row matches Some(f) ==> r matches Ok(g) && g == f,
{
    match row {
        Some(f) => Ok(f),
        None => Err(StoreError::NotFound),
    }
}

/// The outcome of deleting a feed, given how many rows the store removed or
/// its error. Deleting an id that is not stored is no error.
pub fn deletion_outcome(removed: Result<u64, String>) -> (r: Result<(), StoreError>)
    ensures
        removed is Ok <==> r is Ok,
        removed matches Ok(0) ==> r is Ok,
        removed matches Err(m) ==> r matches Err(StoreError::Store(x)) && x@ == m@,
{
    match removed {
        Ok(_) => Ok(()),
        Err(m) => Err(StoreError::Store(m)),
    }
}

} // verus!
