//! The crawl's data model: configuration, HTTP response headers as the
//! crawler reads them (ordered, case-insensitive keys, last write wins),
//! and the record of one fetched page.

use vstd::prelude::*;

verus! {

use vstd::string::StringExecFns;
use crate::strutil::{lower_seq, str_eq_ignore_ascii_case};
use crate::urlutil::CrawlUrl;

/// Startup configuration for a crawl run.
pub struct CrawlConfig {
    /// The identifying user-agent string all policy decisions are evaluated
    /// against.
    pub user_agent: String,
    /// A page the user-agent string points operators to.
    pub bot_info_url: String,
    /// An operator contact reference.
    pub contact_email: String,
    /// The starting minimum interval between requests to one domain.
    pub default_delay_ms: u64,
    /// How many workers fetch concurrently.
    pub max_concurrent_requests: usize,
    /// Entries discovered deeper than this are dropped at admission;
    /// `None` leaves depth unbounded.
    pub max_depth: Option<usize>,
}

impl Default for CrawlConfig {
    /// The stock configuration.
    fn default() -> (r: CrawlConfig)
        ensures
            r.user_agent@ == "MySearchBot/1.0"@,
            r.bot_info_url@ == "https://mysite.com/bot-info"@,
            r.contact_email@ == "crawler@mysite.com"@,
            r.default_delay_ms == 2000,
            r.max_concurrent_requests == 10,
            r.max_depth == Some(2usize),
    {
        CrawlConfig {
            user_agent: String::from_str("MySearchBot/1.0"),
            bot_info_url: String::from_str("https://mysite.com/bot-info"),
            contact_email: String::from_str("crawler@mysite.com"),
            default_delay_ms: 2000,
            max_concurrent_requests: 10,
            max_depth: Some(2),
        }
    }
}

/// The value a name maps to: the value of the last entry whose name matches
/// up to ASCII case, or `None`.
pub open spec fn header_lookup(hs: Seq<(Seq<char>, Seq<char>)>, name: Seq<char>) -> Option<
    Seq<char>,
>
    decreases hs.len(),
{
    if hs.len() == 0 {
        None
    } else if lower_seq(hs.last().0) == lower_seq(name) {
        Some(hs.last().1)
    } else {
        header_lookup(hs.drop_last(), name)
    }
}

/// Response headers in arrival order. Names compare case-insensitively and
/// a later entry shadows an earlier one of the same name.
pub struct Headers {
    entries: Vec<(String, String)>,
}

impl View for Headers {
    type V = Seq<(Seq<char>, Seq<char>)>;

    closed spec fn view(&self) -> Seq<(Seq<char>, Seq<char>)> {
        self.entries.deep_view()
    }
}

impl Headers {
    /// No headers.
    pub fn new() -> (r: Headers)
        ensures
            r@.len() == 0,
    {
        Headers { entries: Vec::new() }
    }

    /// Takes a list of name/value pairs, in order, as the headers.
    pub fn from_pairs(pairs: Vec<(String, String)>) -> (r: Headers)
        ensures
            r@ == pairs.deep_view(),
    {
        Headers { entries: pairs }
    }

    /// Appends one header.
    pub fn push(&mut self, name: String, value: String)
        ensures
            final(self)@ == old(self)@.push((name@, value@)),
    {
        let ghost before = self@;
        self.entries.push((name, value));
        proof {
            assert(self@ =~= before.push((name@, value@)));
        }
    }

    /// How many entries there are.
    pub fn len(&self) -> (r: usize)
        ensures
            r == self@.len(),
    {
        self.entries.len()
    }

    /// Looks a name up, case-insensitively; of several entries with this
    /// name the last one wins.
    pub fn get(&self, name: &str) -> (r: Option<String>)
        ensures
            r is Some <==> header_lookup(self@, name@) is Some,
            r matches Some(v) ==> header_lookup(self@, name@) == Some(v@),
    {
        let mut i: usize = self.entries.len();
        proof {
            assert(self@.take(self.entries@.len() as int) =~= self@);
        }
        while i > 0
            invariant
                i <= self.entries@.len(),
                self@.len() == self.entries@.len(),
                header_lookup(self@, name@) == header_lookup(self@.take(i as int), name@),
            decreases i,
        {
            i -= 1;
            proof {
                assert(self@.take(i + 1).last() == self@[i as int]);
                assert(self@.take(i + 1).drop_last() =~= self@.take(i as int));
                assert(self@[i as int].0 == self.entries@[i as int].0@);
            }
            if str_eq_ignore_ascii_case(self.entries[i].0.as_str(), name) {
                return Some(self.entries[i].1.clone());
            }
        }
        proof {
            assert(self@.take(0) =~= Seq::<(Seq<char>, Seq<char>)>::empty());
        }
        None
    }
}

/// The conditional request headers a fetch carries when revalidation
/// tokens from an earlier fetch of the same URL are known.
pub open spec fn conditional_headers_spec(
    etag: Option<Seq<char>>,
    last_modified: Option<Seq<char>>,
) -> Seq<(Seq<char>, Seq<char>)> {
    let with_etag = match etag {
        Some(e) => Seq::<(Seq<char>, Seq<char>)>::empty().push(("If-None-Match"@, e)),
        None => Seq::<(Seq<char>, Seq<char>)>::empty(),
    };
    match last_modified {
        Some(l) => with_etag.push(("If-Modified-Since"@, l)),
        None => with_etag,
    }
}

/// Builds the conditional headers for known revalidation tokens.
pub fn conditional_headers(etag: &Option<String>, last_modified: &Option<String>) -> (r: Vec<
    (String, String),
>)
    ensures
        r.deep_view() == conditional_headers_spec(etag.deep_view(), last_modified.deep_view()),
{
    let mut out: Vec<(String, String)> = Vec::new();
    if let Some(e) = etag {
        out.push((String::from_str("If-None-Match"), e.clone()));
    }
    if let Some(l) = last_modified {
        out.push((String::from_str("If-Modified-Since"), l.clone()));
    }
    proof {
        assert(out.deep_view() =~= conditional_headers_spec(
            etag.deep_view(),
            last_modified.deep_view(),
        ));
    }
    out
}

/// The result of one successful fetch of one URL.
pub struct CrawledPage {
    /// The normalized absolute URL that was fetched.
    pub url: CrawlUrl,
    /// The HTTP status the server answered with.
    pub status_code: u16,
    /// The response headers.
    pub headers: Headers,
    /// The raw response body.
    pub html: String,
    /// Whitespace-collapsed visible text; empty until extraction has run.
    pub text_content: String,
    /// Absolute http/https links found in the body; empty until extraction
    /// has run.
    pub outgoing_links: Vec<CrawlUrl>,
    /// When the fetch completed, in milliseconds on the caller's clock.
    pub timestamp: u64,
    /// Fingerprint of `text_content`; empty until extraction has run.
    pub content_hash: String,
    /// Revalidation token for a future conditional fetch of this URL.
    pub etag: Option<String>,
    /// Revalidation token for a future conditional fetch of this URL.
    pub last_modified: Option<String>,
}

impl CrawledPage {
    /// A page as the fetcher hands it over: extraction has not run yet, so
    /// text, links and fingerprint are empty, and the revalidation tokens
    /// are read off the response headers.
    pub open spec fn is_unprocessed(&self) -> bool {
        &&& self.text_content@.len() == 0
        &&& self.outgoing_links@.len() == 0
        &&& self.content_hash@.len() == 0
    }

    /// Assembles the record of a fresh fetch, before extraction.
    pub fn from_fetch(
        url: CrawlUrl,
        status_code: u16,
        headers: Headers,
        html: String,
        timestamp: u64,
    ) -> (r: CrawledPage)
        ensures
            r.url == url,
            r.status_code == status_code,
            r.headers == headers,
            r.html == html,
            r.timestamp == timestamp,
            r.is_unprocessed(),
            r.etag.deep_view() == header_lookup(headers@, "ETag"@),
            r.last_modified.deep_view() == header_lookup(headers@, "Last-Modified"@),
    {
        let etag = headers.get("ETag");
        let last_modified = headers.get("Last-Modified");
        CrawledPage {
            url,
            status_code,
            headers,
            html,
            text_content: String::new(),
            outgoing_links: Vec::new(),
            timestamp,
            content_hash: String::new(),
            etag,
            last_modified,
        }
    }
}

} // verus!
