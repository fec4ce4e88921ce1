use crawler::frontier::URLFrontier;
use crawler::urlutil::CrawlUrl;

fn url(s: &str) -> CrawlUrl {
    CrawlUrl::parse(s).unwrap()
}

#[test]
fn frontier_dedup_duplicate_add() {
    let mut f = URLFrontier::new();
    f.add_url(url("https://a.test/page"), 0);
    f.add_url(url("https://a.test/page"), 0);
    f.add_url(url("https://a.test/page"), 1);
    let mut drained = Vec::new();
    while let Some(e) = f.next_url() {
        drained.push(e.url.full_str().to_string());
    }
    assert_eq!(drained, vec!["https://a.test/page".to_string()]);
}

#[test]
fn frontier_dedup_normalized_spellings() {
    // Two spellings of one URL normalize to the same full form and are
    // admitted once.
    let mut f = URLFrontier::new();
    f.add_url(url("https://a.test"), 0);
    f.add_url(url("HTTPS://A.TEST/"), 0);
    let first = f.next_url().unwrap();
    assert_eq!(first.url.full_str(), "https://a.test/");
    assert!(f.next_url().is_none());
}

#[test]
fn frontier_fifo_order() {
    let mut f = URLFrontier::new();
    f.add_url(url("https://a.test/1"), 0);
    f.add_url(url("https://a.test/2"), 0);
    f.add_url(url("https://a.test/3"), 1);
    assert_eq!(f.next_url().unwrap().url.full_str(), "https://a.test/1");
    assert_eq!(f.next_url().unwrap().url.full_str(), "https://a.test/2");
    let third = f.next_url().unwrap();
    assert_eq!(third.url.full_str(), "https://a.test/3");
    assert_eq!(third.depth, 1);
    assert!(f.next_url().is_none());
}

#[test]
fn frontier_depth_bound_drops_at_admission() {
    let mut f = URLFrontier::with_max_depth(1);
    f.add_url(url("https://a.test/ok"), 1);
    f.add_url(url("https://a.test/deep"), 2);
    assert_eq!(f.queue_len(), 1);
    assert_eq!(f.next_url().unwrap().url.full_str(), "https://a.test/ok");
    assert!(f.next_url().is_none());
    // The dropped entry was never admitted to the seen set either.
    assert!(!f.has_seen(&url("https://a.test/deep")));
}

#[test]
fn frontier_drained_url_stays_seen() {
    let mut f = URLFrontier::new();
    f.add_url(url("https://a.test/x"), 0);
    let e = f.next_url().unwrap();
    assert_eq!(e.url.full_str(), "https://a.test/x");
    assert!(f.has_seen(&e.url));
    // Re-adding a drained URL is a no-op: it can never be drained twice.
    f.add_url(url("https://a.test/x"), 0);
    assert_eq!(f.queue_len(), 0);
}

#[test]
fn frontier_add_urls_batch() {
    let mut f = URLFrontier::new();
    let batch = vec![
        url("https://a.test/1"),
        url("https://a.test/2"),
        url("https://a.test/1"),
    ];
    f.add_urls(&batch, 3);
    assert_eq!(f.queue_len(), 2);
    let e = f.next_url().unwrap();
    assert_eq!(e.url.full_str(), "https://a.test/1");
    assert_eq!(e.depth, 3);
}
