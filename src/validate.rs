use vstd::prelude::*;
use crate::text::{ascii_lowercase, chars_of, contains, contains_text, lower};

verus! {

/// The scheme of `s` read as an absolute URL, or `None` where `s` is no URL.
pub uninterp spec fn url_scheme_of(s: Seq<char>) -> Option<Seq<char>>;

/// Relies on `url::Url::parse` and `url::Url::scheme`: the scheme of the parsed
/// URL, or nothing where parsing fails.
#[verifier::external_body]
fn parse_scheme(s: &str) -> (r: Option<String>)
    ensures
        r is None <==> url_scheme_of(s@) is None,
        r matches Some(x) ==> url_scheme_of(s@) == Some(x@),
{
    match url::Url::parse(s) {
        Ok(u) => Some(u.scheme().to_string()),
        Err(_) => None,
    }
}

/// The scheme is one that the fetcher speaks.
pub open spec fn is_web_scheme(scheme: Option<Seq<char>>) -> bool {
    scheme == Some("http"@) || scheme == Some("https"@)
}

/// `s` is an absolute `http` or `https` URL.
pub open spec fn valid_url(s: Seq<char>) -> bool {
    is_web_scheme(url_scheme_of(s))
}

/// A declared content type names one of the XML feed media types, in any case.
pub open spec fn feed_media_type(content_type: Seq<char>) -> bool {
    let l = lower(content_type);
    contains(l, "application/rss+xml"@) || contains(l, "application/xml"@) || contains(l, "text/xml"@)
}

fn same_text(a: &str, b: &str) -> (r: bool)
    ensures
        r == (a@ == b@),
{
    let x = chars_of(a);
    let y = chars_of(b);
    if x.len() != y.len() {
        return false;
    }
    let mut i: usize = 0;
    while i < x.len()
        invariant
            x@ == a@,
            y@ == b@,
            x.len() == y.len(),
            i <= x.len(),
            forall|k: int| 0 <= k < i ==> x@[k] == y@[k],
        decreases x.len() - i,
    {
        if x[i] != y[i] {
            return false;
        }
        i = i + 1;
    }
    assert(x@ =~= y@);
    true
}

/// Whether a URL's scheme, `None` for no URL, is `http` or `https`.
pub fn is_web_scheme_text(scheme: Option<&str>) -> (r: bool)
    ensures
        r == is_web_scheme(match scheme {
            Some(s) => Some(s@),
            None => None,
        }),
{
    match scheme {
        Some(s) => same_text(s, "http") || same_text(s, "https"),
        None => false,
    }
}

/// Whether `url` is an absolute URL with the `http` or `https` scheme.
pub fn is_valid_url(url: &str) -> (r: bool)
    ensures
        r == valid_url(url@),
{
    match parse_scheme(url) {
        Some(scheme) => is_web_scheme_text(Some(scheme.as_str())),
        None => is_web_scheme_text(None),
    }
}

/// Whether a declared content type marks a syndication feed.
pub fn is_feed_content_type(content_type: &str) -> (r: bool)
    ensures
        r == feed_media_type(content_type@),
{
    let l = ascii_lowercase(content_type);
    contains_text(l.as_str(), "application/rss+xml") || contains_text(l.as_str(), "application/xml")
        || contains_text(l.as_str(), "text/xml")
}

/// The first step of checking a candidate feed URL.
pub enum ProbeStep {
    /// The candidate is no web URL: it is not a feed, and nothing is fetched.
    Reject,
    /// Request this URL and report the declared content type.
    Fetch(String),
}

/// Decides whether a candidate is worth a request at all.
pub fn start_feed_probe(candidate: &str) -> (r: ProbeStep)
    ensures
        r is Fetch <==> valid_url(candidate@),
        !is_web_scheme(url_scheme_of(candidate@)) ==> r is Reject,
        r matches ProbeStep::Fetch(u) ==> u@ == candidate@,
{
    if is_valid_url(candidate) {
        ProbeStep::Fetch(candidate.to_owned())
    } else {
        ProbeStep::Reject
    }
}

/// Classifies a fetched candidate by the content type its server declared;
/// `None` stands for a failed request or a missing or unreadable header.
pub fn finish_feed_probe(content_type: Option<&str>) -> (r: bool)
    ensures
        r == match content_type {
            Some(ct) => feed_media_type(ct@),
            None => false,
        },
{
    match content_type {
        Some(ct) => is_feed_content_type(ct),
        None => false,
    }
}

} // verus!
