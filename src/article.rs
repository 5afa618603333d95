use vstd::prelude::*;
use crate::aggregate::{fetched_view, or_empty};
use crate::html::{escape_html, escaped, lemma_escaped_tag_free, tag_free};
use crate::markup::{element_text, first_element_text, lemma_element_text_tag_free, trim, trim_text};
use crate::nesting::{html_nesting, nesting, too_deep, MAX_NESTING};

verus! {

/// What readability makes of a page, as plain values: title, content markup, text.
pub type ReadableModel = (Seq<char>, Seq<char>, Seq<char>);

/// What readability extracts from a page fetched from `base`, or `None` where
/// `base` is no URL or the page cannot be read.
pub uninterp spec fn readable_of(html: Seq<char>, base: Seq<char>) -> Option<ReadableModel>;

/// Relies on `readability::extractor::extract`, with `url::Url::parse` for the
/// page's address: the page's `<title>`, the markup of its main content and the
/// text of that content. The extractor recurses once per level of nesting, so
/// the page's nesting is bounded.
#[verifier::external_body]
fn extract_readable(html: &str, base: &str) -> (r: Option<(String, String, String)>)
    requires
        nesting(html@) <= MAX_NESTING,
    ensures
        r is None <==> readable_of(html@, base@) is None,
        r matches Some(p) ==> readable_of(html@, base@) == Some((p.0@, p.1@, p.2@)),
{
    let url = match url::Url::parse(base) {
        Ok(u) => u,
        Err(_) => return None,
    };
    match readability::extractor::extract(&mut html.as_bytes(), &url) {
        Ok(p) => Some((p.title, p.content, p.text)),
        Err(_) => None,
    }
}

/// An article reduced to its readable parts. Title and description are HTML
/// text: markup characters in them are escaped, and they hold no tag.
pub struct ExtractedArticle {
    pub title: String,
    pub description: String,
    pub content: String,
}

impl View for ExtractedArticle {
    type V = (Seq<char>, Seq<char>, Seq<char>);

    open spec fn view(&self) -> (Seq<char>, Seq<char>, Seq<char>) {
        (self.title@, self.description@, self.content@)
    }
}

/// Why an article could not be shown.
pub enum ArticleError {
    /// The page could not be fetched; the transport's description.
    Network(String),
    /// The page was fetched but no readable content was found in it.
    Extraction,
    /// The page nests its elements deeper than is handed to the extractor.
    Oversized,
}

/// The article's title as HTML text: the page's `<title>`, escaped, or else
/// the text of its first `<h1>`, which is HTML text already.
pub open spec fn article_title(html: Seq<char>, page_title: Seq<char>) -> Seq<char> {
    if trim(page_title).len() > 0 {
        escaped(trim(page_title))
    } else {
        or_empty(element_text(html, "h1"@))
    }
}

/// The article's description: the text of the content's first paragraph,
/// which is HTML text already.
pub open spec fn article_description(content: Seq<char>) -> Seq<char> {
    or_empty(element_text(content, "p"@))
}

/// The article made of what readability found in a page, or `None` where
/// that holds no readable text.
pub open spec fn article_parts(html: Seq<char>, p: ReadableModel) -> Option<(Seq<char>, Seq<char>, Seq<char>)> {
    if trim(p.2).len() == 0 {
        None
    } else {
        Some((article_title(html, p.0), article_description(p.1), p.1))
    }
}

/// The article extracted from a page, or `None` where it nests too deep or
/// holds no readable text.
pub open spec fn extracted(html: Seq<char>, base: Seq<char>) -> Option<(Seq<char>, Seq<char>, Seq<char>)> {
    if too_deep(html) {
        None
    } else {
        match readable_of(html, base) {
            None => None,
            Some(p) => article_parts(html, p),
        }
    }
}

/// Why no article is extracted from a page that has none.
pub open spec fn extraction_failed_as(html: Seq<char>, e: ArticleError) -> bool {
    if too_deep(html) {
        e is Oversized
    } else {
        e is Extraction
    }
}

fn text_or_empty(o: Option<String>) -> (r: String)
    ensures
        r@ == or_empty(match o {
            Some(s) => Some(s@),
            None => None,
        }),
{
    match o {
        Some(s) => s,
        None => String::new(),
    }
}

/// The article made of a page and what readability found in it: its page
/// title, the markup of its main content and the text of that content.
pub fn article_from_readable(html: &str, page_title: String, content: String, text: String) -> (r:
    Result<ExtractedArticle, ArticleError>)
    ensures
        r is Err <==> article_parts(html@, (page_title@, content@, text@)) is None,
        r matches Err(e) ==> e is Extraction,
        r matches Ok(a) ==> article_parts(html@, (page_title@, content@, text@)) == Some(a@),
        r matches Ok(a) ==> tag_free(a.title@) && tag_free(a.description@),
{
    proof {
        lemma_escaped_tag_free(trim(page_title@));
        lemma_element_text_tag_free(html@, "h1"@);
        lemma_element_text_tag_free(content@, "p"@);
    }
    let body_text = trim_text(text.as_str());
    if body_text.as_str().unicode_len() == 0 {
        return Err(ArticleError::Extraction);
    }
    let trimmed_title = trim_text(page_title.as_str());
    let title = if trimmed_title.as_str().unicode_len() > 0 {
        escape_html(trimmed_title.as_str())
    } else {
        text_or_empty(first_element_text(html, "h1"))
    };
    let description = text_or_empty(first_element_text(content.as_str(), "p"));
    Ok(ExtractedArticle { title, description, content })
}

/// Reduces a page fetched from `url` to its title, description and main content.
pub fn extract_article(html: &str, url: &str) -> (r: Result<ExtractedArticle, ArticleError>)
    ensures
        r is Err <==> extracted(html@, url@) is None,
        r matches Err(e) ==> extraction_failed_as(html@, e),
        r matches Ok(a) ==> extracted(html@, url@) == Some(a@),
        r matches Ok(a) ==> tag_free(a.title@) && tag_free(a.description@),
{
    if html_nesting(html) > MAX_NESTING {
        return Err(ArticleError::Oversized);
    }
    match extract_readable(html, url) {
        Some((page_title, content, text)) => article_from_readable(html, page_title, content, text),
        None => Err(ArticleError::Extraction),
    }
}

/// The reading view of an article: its title as a heading, its description,
/// then its content. All three are HTML already and go in as they are.
pub open spec fn article_html(a: (Seq<char>, Seq<char>, Seq<char>)) -> Seq<char> {
    "<h1>"@ + a.0 + "</h1><p class=\"italic\">"@ + a.1 + "</p>"@ + a.2
}

/// The reading view of an article.
pub fn format_article(article: &ExtractedArticle) -> (r: String)
    ensures
        r@ == article_html(article@),
{
    let mut r = String::from_str("<h1>");
    r.append(article.title.as_str());
    r.append("</h1><p class=\"italic\">");
    r.append(article.description.as_str());
    r.append("</p>");
    r.append(article.content.as_str());
    assert(r@ =~= article_html(article@));
    r
}

/// What the reading view of an article is, given what fetching its page gave.
pub open spec fn article_page(url: Seq<char>, fetched: Result<Seq<char>, Seq<char>>) -> Option<Seq<char>> {
    match fetched {
        Err(_) => None,
        Ok(html) => match extracted(html, url) {
            Some(a) => Some(article_html(a)),
            None => None,
        },
    }
}

/// The title and description of every extracted article hold no tag.
pub proof fn lemma_extracted_tag_free(html: Seq<char>, url: Seq<char>)
    ensures
        extracted(html, url) matches Some(a) ==> tag_free(a.0) && tag_free(a.1),
{
    if let Some(p) = readable_of(html, url) {
        lemma_escaped_tag_free(trim(p.0));
        lemma_element_text_tag_free(html, "h1"@);
        lemma_element_text_tag_free(p.1, "p"@);
    }
}

/// `page` is the reading view of the article extracted from `html`, whose
/// title and description hold no tag: around its content, it opens nothing it
/// does not close.
pub open spec fn safe_reading_view(url: Seq<char>, html: Seq<char>, page: Seq<char>) -> bool {
    match extracted(html, url) {
        Some(a) => page == article_html(a) && tag_free(a.0) && tag_free(a.1),
        None => false,
    }
}

/// The reading view of the article at `url`, given what fetching it gave, or
/// why there is none.
pub fn scrape_article(url: &str, fetched: Result<String, String>) -> (r: Result<String, ArticleError>)
    ensures
        match fetched {
            Err(m) => r matches Err(ArticleError::Network(x)) && x@ == m@,
            Ok(html) => match article_page(url@, Ok(html@)) {
                Some(p) => r matches Ok(x) && x@ == p,
                None => r matches Err(e) && extraction_failed_as(html@, e),
            },
        },
        match fetched {
            Ok(html) => r matches Ok(x) ==> safe_reading_view(url@, html@, x@),
            Err(_) => true,
        },
{
    let ghost f = fetched_view(fetched);
    proof {
        if let Ok(h) = f {
            lemma_extracted_tag_free(h, url@);
        }
    }
    match fetched {
        Err(m) => Err(ArticleError::Network(m)),
        Ok(html) => match extract_article(html.as_str(), url) {
            Ok(a) => Ok(format_article(&a)),
            Err(e) => Err(e),
        },
    }
}

/// The message shown for an article error.
pub open spec fn article_error_text(e: &ArticleError) -> Seq<char> {
    match e {
        ArticleError::Network(m) => "Error fetching article: "@ + m@,
        ArticleError::Extraction => "Error scraping article: no readable content was found"@,
        ArticleError::Oversized => "Error scraping article: the page nests too deeply to be read"@,
    }
}

impl ArticleError {
    /// The message shown to the reader; it tells an unreachable page from one
    /// without readable content.
    pub fn message(&self) -> (r: String)
        ensures
            r@ == article_error_text(self),
    {
        match self {
            ArticleError::Network(m) => {
                let mut r = String::from_str("Error fetching article: ");
                r.append(m.as_str());
                r
            },
            ArticleError::Extraction => String::from_str(
                "Error scraping article: no readable content was found",
            ),
            ArticleError::Oversized => String::from_str(
                "Error scraping article: the page nests too deeply to be read",
            ),
        }
    }
}

} // verus!
