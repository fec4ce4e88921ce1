use crawler::stopwords::is_stopword;
use crawler::strutil::{str_eq, str_eq_ignore_ascii_case, trim_str};
use crawler::urlutil::CrawlUrl;

#[test]
fn parse_normalizes_scheme_and_host() {
    let u = CrawlUrl::parse("HTTPS://A.Test").unwrap();
    assert_eq!(u.full_str(), "https://a.test/");
    assert_eq!(u.scheme_str(), "https");
    assert_eq!(u.host_str(), "a.test");
    assert_eq!(u.path_str(), "/");
    assert!(u.has_fetchable_scheme());
}

#[test]
fn parse_rejects_relative_and_garbage() {
    assert!(CrawlUrl::parse("/relative/only").is_none());
    assert!(CrawlUrl::parse("not a url").is_none());
}

#[test]
fn parse_non_http_scheme_is_not_fetchable() {
    let u = CrawlUrl::parse("ftp://a.test/f").unwrap();
    assert!(!u.has_fetchable_scheme());
}

#[test]
fn join_standard_reference_forms() {
    let base = CrawlUrl::parse("https://a.test/dir/page").unwrap();
    assert_eq!(base.join("../x").unwrap().full_str(), "https://a.test/x");
    assert_eq!(base.join("y").unwrap().full_str(), "https://a.test/dir/y");
    assert_eq!(
        base.join("//b.test/z").unwrap().full_str(),
        "https://b.test/z"
    );
    assert_eq!(
        base.join("#frag").unwrap().full_str(),
        "https://a.test/dir/page#frag"
    );
    assert!(base.join("http://[bad").is_none());
}

#[test]
fn str_eq_compares_by_characters() {
    assert!(str_eq("héllo", "héllo"));
    assert!(!str_eq("hello", "hella"));
    assert!(!str_eq("hello", "hello "));
}

#[test]
fn ascii_case_insensitive_equality() {
    assert!(str_eq_ignore_ascii_case("Content-Type", "content-type"));
    assert!(str_eq_ignore_ascii_case("ETAG", "etag"));
    assert!(!str_eq_ignore_ascii_case("ETag", "ETag2"));
}

#[test]
fn trim_removes_outer_whitespace_only() {
    assert_eq!(trim_str(" \t hello  world \n\r"), "hello  world");
    assert_eq!(trim_str("   "), "");
    assert_eq!(trim_str("x"), "x");
}

#[test]
fn stopwords_match_upcased_tokens() {
    assert!(is_stopword("THE"));
    assert!(is_stopword("A"));
    assert!(is_stopword("WITH"));
    assert!(!is_stopword("the"));
    assert!(!is_stopword("RUST"));
    assert!(!is_stopword(""));
}
