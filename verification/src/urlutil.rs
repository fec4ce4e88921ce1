//! URLs as the crawler sees them: a parsed, normalized absolute URL carried
//! as plain strings (full serialization, scheme, registrable domain, path).
//! Parsing and reference resolution are done by the `url` crate behind
//! trusted wrappers; everything downstream works on the plain components.

use vstd::prelude::*;

verus! {

use vstd::utf8::is_ascii_chars;
use crate::strutil::str_eq;

/// The components of an absolute URL, as the `url` crate normalizes them.
pub struct UrlParts {
    pub full: Seq<char>,
    pub scheme: Seq<char>,
    pub host: Seq<char>,
    pub path: Seq<char>,
}

/// What `url::Url::parse` makes of a string: `None` when the string is not
/// an absolute URL, otherwise the normalized components. The result depends
/// on the input string alone.
pub uninterp spec fn url_parse_spec(s: Seq<char>) -> Option<UrlParts>;

/// What resolving a (possibly relative) reference `href` against the
/// absolute URL serialized as `base` yields, per the `url` crate's join
/// semantics. The result depends on the two strings alone.
pub uninterp spec fn url_join_spec(base: Seq<char>, href: Seq<char>) -> Option<UrlParts>;

/// A normalized absolute URL: the full serialization together with the
/// components the crawl logic reads.
pub struct CrawlUrl {
    full: String,
    scheme: String,
    host: String,
    path: String,
}

impl View for CrawlUrl {
    type V = UrlParts;

    closed spec fn view(&self) -> UrlParts {
        UrlParts { full: self.full@, scheme: self.scheme@, host: self.host@, path: self.path@ }
    }
}

impl DeepView for CrawlUrl {
    type V = UrlParts;

    open spec fn deep_view(&self) -> UrlParts {
        self.view()
    }
}

/// Relies on `url::Url::parse` and the accessors `as_str`, `scheme`,
/// `domain` and `path`: parsing is deterministic, `as_str` is the
/// normalized serialization, and a URL without a registrable domain
/// (e.g. an IP address) yields an empty host here, as `Url::domain`
/// returns `None` for it.
#[verifier::external_body]
fn parse_url_raw(s: &str) -> (r: Option<CrawlUrl>)
    ensures
        r is Some <==> url_parse_spec(s@) is Some,
        r matches Some(u) ==> url_parse_spec(s@) == Some(u@),
{
    let u = url::Url::parse(s).ok()?;
    Some(CrawlUrl {
        full: u.as_str().to_string(),
        scheme: u.scheme().to_string(),
        host: u.domain().unwrap_or("").to_string(),
        path: u.path().to_string(),
    })
}

/// Relies on `url::Url::join` (after re-parsing the stored normalized
/// serialization, which `url` round-trips): resolution is a deterministic
/// function of the base serialization and the reference.
#[verifier::external_body]
fn join_url_raw(base: &str, href: &str) -> (r: Option<CrawlUrl>)
    ensures
        r is Some <==> url_join_spec(base@, href@) is Some,
        r matches Some(u) ==> url_join_spec(base@, href@) == Some(u@),
{
    let u = url::Url::parse(base).ok()?.join(href).ok()?;
    Some(CrawlUrl {
        full: u.as_str().to_string(),
        scheme: u.scheme().to_string(),
        host: u.domain().unwrap_or("").to_string(),
        path: u.path().to_string(),
    })
}

/// A scheme the crawler will fetch.
pub open spec fn is_fetchable_scheme(scheme: Seq<char>) -> bool {
    scheme == "http"@ || scheme == "https"@
}

impl CrawlUrl {
    /// Every URL this library holds has an ASCII path: the `url` crate
    /// serializes paths percent-encoded. The robots matcher relies on it.
    #[verifier::type_invariant]
    pub closed spec fn wf(self) -> bool {
        is_ascii_chars(self.path@)
    }

    /// Parses an absolute URL, normalizing it.
    pub fn parse(s: &str) -> (r: Option<CrawlUrl>)
        ensures
            r is Some <==> url_parse_spec(s@) is Some,
            r matches Some(u) ==> url_parse_spec(s@) == Some(u@),
    {
        parse_url_raw(s)
    }

    /// Resolves a (possibly relative) reference against this URL.
    pub fn join(&self, href: &str) -> (r: Option<CrawlUrl>)
        ensures
            r is Some <==> url_join_spec(self@.full, href@) is Some,
            r matches Some(u) ==> url_join_spec(self@.full, href@) == Some(u@),
    {
        join_url_raw(self.full.as_str(), href)
    }

    /// The normalized serialization.
    pub fn full_str(&self) -> (r: &str)
        ensures
            r@ == self@.full,
    {
        self.full.as_str()
    }

    /// The URL's scheme.
    pub fn scheme_str(&self) -> (r: &str)
        ensures
            r@ == self@.scheme,
    {
        self.scheme.as_str()
    }

    /// The URL's registrable domain; empty when it has none.
    pub fn host_str(&self) -> (r: &str)
        ensures
            r@ == self@.host,
    {
        self.host.as_str()
    }

    /// The URL's path.
    pub fn path_str(&self) -> (r: &str)
        ensures
            r@ == self@.path,
    {
        self.path.as_str()
    }

    /// Whether the crawler may fetch this URL's scheme (http or https).
    pub fn has_fetchable_scheme(&self) -> (r: bool)
        ensures
            r == is_fetchable_scheme(self@.scheme),
    {
        str_eq(self.scheme.as_str(), "http") || str_eq(self.scheme.as_str(), "https")
    }

    /// An identical copy of this URL.
    pub fn clone_url(&self) -> (r: CrawlUrl)
        ensures
            r@ == self@,
    {
        proof {
            use_type_invariant(self);
        }
        CrawlUrl {
            full: self.full.clone(),
            scheme: self.scheme.clone(),
            host: self.host.clone(),
            path: self.path.clone(),
        }
    }
}

/// What the URL type's invariant gives its users: the path is ASCII.
pub proof fn lemma_url_path_ascii(u: CrawlUrl)
    requires
        u.wf(),
    ensures
        is_ascii_chars(u@.path),
{
}

} // verus!
