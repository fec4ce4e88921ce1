use crawler::model::{conditional_headers, CrawledPage, Headers};
use crawler::parser::{extract_links, Parser};
use crawler::urlutil::CrawlUrl;

fn url(s: &str) -> CrawlUrl {
    CrawlUrl::parse(s).unwrap()
}

fn page(base: &str, html: &str) -> CrawledPage {
    CrawledPage::from_fetch(url(base), 200, Headers::new(), html.to_string(), 0)
}

fn link_strings(p: &CrawledPage) -> Vec<String> {
    p.outgoing_links.iter().map(|u| u.full_str().to_string()).collect()
}

#[test]
fn extract_resolves_relative_and_absolute() {
    let html = "<html><body><a href=\"/x\">x</a><a href=\"https://b.test/y\">y</a></body></html>";
    let links = extract_links(&url("https://a.test/"), html);
    let got: Vec<String> = links.iter().map(|u| u.full_str().to_string()).collect();
    assert_eq!(
        got,
        vec!["https://a.test/x".to_string(), "https://b.test/y".to_string()]
    );
}

#[test]
fn extract_keeps_only_http_schemes() {
    let html = "<html><body>\
        <a href=\"mailto:someone@a.test\">m</a>\
        <a href=\"javascript:void(0)\">j</a>\
        <a href=\"ftp://a.test/f\">f</a>\
        <a href=\"relative\">r</a>\
        </body></html>";
    let links = extract_links(&url("https://a.test/dir/page"), html);
    let got: Vec<String> = links.iter().map(|u| u.full_str().to_string()).collect();
    assert_eq!(got, vec!["https://a.test/dir/relative".to_string()]);
}

#[test]
fn extract_skips_malformed_hrefs() {
    let html = "<html><body><a href=\"http://[bad\">b</a><a href=\"/ok\">o</a></body></html>";
    let links = extract_links(&url("https://a.test/"), html);
    let got: Vec<String> = links.iter().map(|u| u.full_str().to_string()).collect();
    assert_eq!(got, vec!["https://a.test/ok".to_string()]);
}

#[test]
fn extract_keeps_duplicates_in_order() {
    // Dedup is the frontier's job, not the extractor's.
    let html = "<html><body><a href=\"/x\">1</a><a href=\"/x\">2</a></body></html>";
    let links = extract_links(&url("https://a.test/"), html);
    assert_eq!(links.len(), 2);
}

#[test]
fn parse_fills_text_and_hash() {
    let mut p = page(
        "https://a.test/",
        "<html><body>Hello World</body></html>",
    );
    Parser::parse(&mut p);
    assert_eq!(p.text_content, "Hello World");
    // md5 of "Hello World".
    assert_eq!(p.content_hash, "b10a8db164e0754105b7a99be72e3fe5");
    assert!(p.outgoing_links.is_empty());
}

#[test]
fn parse_empty_body_hashes_fixed_value() {
    let mut p = page("https://a.test/", "<html><body></body></html>");
    Parser::parse(&mut p);
    assert_eq!(p.text_content, "");
    // md5 of the empty string: the fixed hash of empty text.
    assert_eq!(p.content_hash, "d41d8cd98f00b204e9800998ecf8427e");
}

#[test]
fn parse_leaves_other_fields_alone() {
    let mut p = page("https://a.test/", "<html><body><a href=\"/x\">x</a></body></html>");
    Parser::parse(&mut p);
    assert_eq!(p.url.full_str(), "https://a.test/");
    assert_eq!(p.status_code, 200);
    assert_eq!(p.html, "<html><body><a href=\"/x\">x</a></body></html>");
    assert_eq!(link_strings(&p), vec!["https://a.test/x".to_string()]);
}

#[test]
fn extraction_is_idempotent() {
    let html = "<html><body>Some <i>text</i> here <a href=\"/x\">x</a></body></html>";
    let mut p1 = page("https://a.test/", html);
    let mut p2 = page("https://a.test/", html);
    Parser::parse(&mut p1);
    Parser::parse(&mut p2);
    assert_eq!(p1.text_content, p2.text_content);
    assert_eq!(p1.content_hash, p2.content_hash);
    assert_eq!(link_strings(&p1), link_strings(&p2));
    // A second run over the already-parsed page yields the same again:
    // extraction is a pure function of (html, base URL).
    let text_before = p1.text_content.clone();
    let hash_before = p1.content_hash.clone();
    Parser::parse(&mut p1);
    assert_eq!(p1.text_content, text_before);
    assert_eq!(p1.content_hash, hash_before);
}

#[test]
fn headers_case_insensitive_last_write_wins() {
    let h = Headers::from_pairs(vec![
        ("ETag".to_string(), "a".to_string()),
        ("Content-Type".to_string(), "text/html".to_string()),
        ("etag".to_string(), "b".to_string()),
    ]);
    assert_eq!(h.get("ETAG"), Some("b".to_string()));
    assert_eq!(h.get("content-type"), Some("text/html".to_string()));
    assert_eq!(h.get("missing"), None);
}

#[test]
fn from_fetch_reads_revalidation_tokens() {
    let h = Headers::from_pairs(vec![
        ("ETag".to_string(), "\"v1\"".to_string()),
        ("Last-Modified".to_string(), "Mon, 01 Jan 2024 00:00:00 GMT".to_string()),
    ]);
    let p = CrawledPage::from_fetch(url("https://a.test/"), 200, h, String::new(), 7);
    assert_eq!(p.etag, Some("\"v1\"".to_string()));
    assert_eq!(
        p.last_modified,
        Some("Mon, 01 Jan 2024 00:00:00 GMT".to_string())
    );
    assert_eq!(p.timestamp, 7);
    assert_eq!(p.text_content, "");
    assert_eq!(p.content_hash, "");
    assert!(p.outgoing_links.is_empty());
}

#[test]
fn conditional_headers_reflect_tokens() {
    let none: Option<String> = None;
    assert!(conditional_headers(&none, &none).is_empty());
    let got = conditional_headers(&Some("\"v1\"".to_string()), &none);
    assert_eq!(
        got,
        vec![("If-None-Match".to_string(), "\"v1\"".to_string())]
    );
    let got = conditional_headers(
        &Some("\"v1\"".to_string()),
        &Some("yesterday".to_string()),
    );
    assert_eq!(got.len(), 2);
    assert_eq!(got[1], ("If-Modified-Since".to_string(), "yesterday".to_string()));
}
