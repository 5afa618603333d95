use vstd::prelude::*;
use crate::aggregate::fetched_view;
use crate::article::{article_page, scrape_article};
use crate::nesting::too_deep;

verus! {

/// The body of a reply.
pub enum ReplyBody {
    Text(String),
    Pdf(Vec<u8>),
}

/// A reply to a request for an article as a document.
pub struct HttpReply {
    pub status: u16,
    pub content_type: String,
    pub disposition: Option<String>,
    pub body: ReplyBody,
}

/// What the conversion pipeline gave back.
pub enum RenderOutcome {
    /// The document, streamed back.
    Pdf(Vec<u8>),
    /// The pipeline wrote to a file instead of streaming.
    File,
    /// The pipeline failed; its description.
    Failed(String),
}

/// The next step of serving an article as a document.
pub enum PdfStep {
    /// Convert this HTML document, then hand the outcome to `finish_article_pdf`.
    Render(String),
    /// Send this reply; nothing is converted.
    Reply(HttpReply),
}

/// A server-error reply whose plain-text body is `msg`.
pub open spec fn is_error_reply(r: HttpReply, msg: Seq<char>) -> bool {
    &&& r.status == 500
    &&& r.content_type@ == "text/plain"@
    &&& r.disposition is None
    &&& r.body matches ReplyBody::Text(t) && t@ == msg
}

/// A successful reply carrying the document `pdf` as a download.
pub open spec fn is_pdf_reply(r: HttpReply, pdf: Seq<u8>) -> bool {
    &&& r.status == 200
    &&& r.content_type@ == "application/pdf"@
    &&& r.disposition matches Some(d) && d@ == "attachment; filename=\"article.pdf\""@
    &&& r.body matches ReplyBody::Pdf(b) && b@ == pdf
}

/// The message sent when an article cannot be had, given what fetching it gave.
pub open spec fn article_failure_text(fetched: Result<Seq<char>, Seq<char>>) -> Seq<char> {
    match fetched {
        Err(m) => "Error fetching article: "@ + m,
        Ok(html) => if too_deep(html) {
            "Error scraping article: the page nests too deeply to be read"@
        } else {
            "Error scraping article: no readable content was found"@
        },
    }
}

/// The message sent when a conversion fails.
pub open spec fn render_failure_text(outcome: RenderOutcome) -> Seq<char> {
    match outcome {
        RenderOutcome::Pdf(_) => "Error converting article to PDF: the converter produced no output"@,
        RenderOutcome::File => "Pandoc output to file not supported"@,
        RenderOutcome::Failed(m) => "Error converting article to PDF: "@ + m@,
    }
}

fn error_reply(msg: String) -> (r: HttpReply)
    ensures
        is_error_reply(r, msg@),
{
    HttpReply {
        status: 500,
        content_type: String::from_str("text/plain"),
        disposition: None,
        body: ReplyBody::Text(msg),
    }
}

/// Serving the article at `url` as a document, given what fetching its page
/// gave: the HTML to convert, or an error reply where there is no article.
pub fn start_article_pdf(url: &str, fetched: Result<String, String>) -> (r: PdfStep)
    ensures
        match article_page(url@, fetched_view(fetched)) {
            Some(page) => r matches PdfStep::Render(d) && d@ == page,
            None => r matches PdfStep::Reply(rep) && is_error_reply(
                rep,
                article_failure_text(fetched_view(fetched)),
            ),
        },
{
    match scrape_article(url, fetched) {
        Ok(page) => PdfStep::Render(page),
        Err(e) => {
            let msg = e.message();
            PdfStep::Reply(error_reply(msg))
        },
    }
}

/// The reply when extraction could not be run at all; `detail` says why.
pub fn extraction_failure_reply(detail: String) -> (r: HttpReply)
    ensures
        is_error_reply(r, "Error scraping article: "@ + detail@),
{
    let mut msg = String::from_str("Error scraping article: ");
    msg.append(detail.as_str());
    error_reply(msg)
}

/// The reply for what the conversion gave: the document as a download only
/// where it is non-empty, else a plain-text server error.
pub fn finish_article_pdf(outcome: RenderOutcome) -> (r: HttpReply)
    ensures
        match outcome {
            RenderOutcome::Pdf(b) => if b.len() > 0 {
                is_pdf_reply(r, b@)
            } else {
                is_error_reply(r, render_failure_text(outcome))
            },
            _ => is_error_reply(r, render_failure_text(outcome)),
        },
        r.content_type@ == "application/pdf"@ ==> r.status == 200 && (r.body matches ReplyBody::Pdf(
            b,
        ) && b.len() > 0),
{
    proof {
        reveal_strlit("text/plain");
        reveal_strlit("application/pdf");
        assert("text/plain"@.len() != "application/pdf"@.len());
    }
    match outcome {
        RenderOutcome::Pdf(b) => {
            if b.len() > 0 {
                HttpReply {
                    status: 200,
                    content_type: String::from_str("application/pdf"),
                    disposition: Some(String::from_str("attachment; filename=\"article.pdf\"")),
                    body: ReplyBody::Pdf(b),
                }
            } else {
                error_reply(String::from_str(
                    "Error converting article to PDF: the converter produced no output",
                ))
            }
        },
        RenderOutcome::File => error_reply(String::from_str("Pandoc output to file not supported")),
        RenderOutcome::Failed(m) => {
            let mut msg = String::from_str("Error converting article to PDF: ");
            msg.append(m.as_str());
            error_reply(msg)
        },
    }
}

} // verus!
