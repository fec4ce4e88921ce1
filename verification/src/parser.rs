//! Link and content extraction: anchors are pulled out of the HTML, each
//! href is resolved against the page's URL, non-http(s) results and
//! malformed references are skipped; visible text is the body's text nodes
//! joined with single spaces and trimmed; the content fingerprint is a
//! digest of that text. The whole step is a pure function of the page's
//! body and URL.

use vstd::prelude::*;

verus! {

use crate::model::CrawledPage;
use crate::strutil::{join_parts, join_with_space, trim_spaces, trim_str};
use crate::urlutil::{is_fetchable_scheme, url_join_spec, CrawlUrl, UrlParts};

/// The href attribute values of the document's anchor elements, in document
/// order: a function of the document text alone.
pub uninterp spec fn hrefs_in(html: Seq<char>) -> Seq<Seq<char>>;

/// The text nodes under the document's body element, in document order: a
/// function of the document text alone.
pub uninterp spec fn body_texts_in(html: Seq<char>) -> Seq<Seq<char>>;

/// The lowercase hexadecimal digest the content fingerprint uses: a
/// function of the text alone.
pub uninterp spec fn md5_hex_of(text: Seq<char>) -> Seq<char>;

/// Relies on `scraper`'s HTML parsing and CSS selection (`a[href]`): the
/// selected elements' href values come in document order and depend on the
/// document text alone.
#[verifier::external_body]
fn extract_hrefs(html: &str) -> (r: Vec<String>)
    ensures
        r.deep_view() == hrefs_in(html@),
{
    let document = scraper::Html::parse_document(html);
    let selector = scraper::Selector::parse("a[href]").unwrap();
    let mut out = Vec::new();
    for element in document.select(&selector) {
        if let Some(href) = element.value().attr("href") {
            out.push(href.to_string());
        }
    }
    out
}

/// Relies on `scraper`'s HTML parsing and CSS selection (`body`): the text
/// nodes under the body element come in document order and depend on the
/// document text alone.
#[verifier::external_body]
fn body_text_nodes(html: &str) -> (r: Vec<String>)
    ensures
        r.deep_view() == body_texts_in(html@),
{
    let document = scraper::Html::parse_document(html);
    let selector = scraper::Selector::parse("body").unwrap();
    let mut out = Vec::new();
    if let Some(body) = document.select(&selector).next() {
        for t in body.text() {
            out.push(t.to_string());
        }
    }
    out
}

/// Relies on the `md5` crate: the digest of the text's bytes, written as
/// lowercase hexadecimal, depends on the text alone.
#[verifier::external_body]
fn md5_hex(text: &str) -> (r: String)
    ensures
        r@ == md5_hex_of(text@),
{
    let mut context = md5::Context::new();
    context.consume(text.as_bytes());
    format!("{:x}", context.compute())
}

/// The link pipeline: each href resolved against the base URL, keeping, in
/// order, the results with a fetchable scheme; malformed references drop
/// out individually.
pub open spec fn resolve_links_spec(base: Seq<char>, hrefs: Seq<Seq<char>>) -> Seq<UrlParts>
    decreases hrefs.len(),
{
    if hrefs.len() == 0 {
        Seq::empty()
    } else {
        let rest = resolve_links_spec(base, hrefs.drop_last());
        match url_join_spec(base, hrefs.last()) {
            Some(u) => if is_fetchable_scheme(u.scheme) {
                rest.push(u)
            } else {
                rest
            },
            None => rest,
        }
    }
}

/// The outgoing links extraction yields for a page body and its base URL.
pub open spec fn links_of(html: Seq<char>, base: Seq<char>) -> Seq<UrlParts> {
    resolve_links_spec(base, hrefs_in(html))
}

/// The visible text extraction yields: body text nodes joined with single
/// spaces, trimmed.
pub open spec fn text_content_spec(html: Seq<char>) -> Seq<char> {
    trim_spaces(join_with_space(body_texts_in(html)))
}

/// Everything extraction yields for a page body and its base URL: links,
/// text, fingerprint.
pub open spec fn extraction_spec(html: Seq<char>, base: Seq<char>) -> (
    Seq<UrlParts>,
    Seq<char>,
    Seq<char>,
) {
    (links_of(html, base), text_content_spec(html), md5_hex_of(text_content_spec(html)))
}

/// Link extraction idempotence: extraction is a pure function of the page
/// body and base URL — two runs on the same input yield the same links,
/// the same text and the same fingerprint.
pub proof fn lemma_extraction_idempotent(
    html: Seq<char>,
    base: Seq<char>,
    r1: (Seq<UrlParts>, Seq<char>, Seq<char>),
    r2: (Seq<UrlParts>, Seq<char>, Seq<char>),
)
    requires
        r1 == extraction_spec(html, base),
        r2 == extraction_spec(html, base),
    ensures
        r1 == r2,
{
}

/// Resolves the hrefs found in `html` against `base`, keeping the
/// fetchable ones in order.
pub fn extract_links(base: &CrawlUrl, html: &str) -> (r: Vec<CrawlUrl>)
    ensures
        r.deep_view() == links_of(html@, base@.full),
{
    let hrefs = extract_hrefs(html);
    let mut out: Vec<CrawlUrl> = Vec::new();
    let mut i: usize = 0;
    while i < hrefs.len()
        invariant
            i <= hrefs@.len(),
            hrefs.deep_view().len() == hrefs@.len(),
            hrefs.deep_view() == hrefs_in(html@),
            out.deep_view() == resolve_links_spec(base@.full, hrefs.deep_view().take(i as int)),
        decreases hrefs@.len() - i,
    {
        proof {
            assert(hrefs.deep_view().take(i + 1).drop_last() =~= hrefs.deep_view().take(i as int));
            assert(hrefs.deep_view().take(i + 1).last() == hrefs.deep_view()[i as int]);
            assert(hrefs.deep_view()[i as int] == hrefs@[i as int]@);
        }
        match base.join(hrefs[i].as_str()) {
            Some(u) => {
                if u.has_fetchable_scheme() {
                    let ghost prev = out.deep_view();
                    let ghost uv = u@;
                    out.push(u);
                    proof {
                        assert(out.deep_view() =~= prev.push(uv));
                    }
                }
            }
            None => {}
        }
        i += 1;
    }
    proof {
        assert(hrefs.deep_view().take(hrefs@.len() as int) =~= hrefs.deep_view());
    }
    out
}

/// The extraction step.
pub struct Parser;

impl Parser {
    /// Fills a fetched page's outgoing links, visible text and content
    /// fingerprint from its body and URL, leaving every other field as it
    /// was.
    pub fn parse(page: &mut CrawledPage)
        ensures
            final(page).outgoing_links.deep_view() == links_of(
                old(page).html@,
                old(page).url@.full,
            ),
            final(page).text_content@ == text_content_spec(old(page).html@),
            final(page).content_hash@ == md5_hex_of(text_content_spec(old(page).html@)),
            final(page).url == old(page).url,
            final(page).status_code == old(page).status_code,
            final(page).headers == old(page).headers,
            final(page).html == old(page).html,
            final(page).timestamp == old(page).timestamp,
            final(page).etag == old(page).etag,
            final(page).last_modified == old(page).last_modified,
    {
        let links = extract_links(&page.url, page.html.as_str());
        page.outgoing_links = links;
        let nodes = body_text_nodes(page.html.as_str());
        let joined = join_parts(&nodes);
        page.text_content = trim_str(joined.as_str());
        page.content_hash = md5_hex(page.text_content.as_str());
    }
}

} // verus!
