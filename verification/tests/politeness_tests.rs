use crawler::double_delay;
use crawler::model::CrawlConfig;
use crawler::politeness::PolitenessManager;
use crawler::urlutil::CrawlUrl;

fn manager() -> PolitenessManager {
    PolitenessManager::new(&CrawlConfig::default())
}

fn url(s: &str) -> CrawlUrl {
    CrawlUrl::parse(s).unwrap()
}

#[test]
fn backoff_doubles_per_signal() {
    let mut m = manager();
    assert_eq!(m.domain_state("c.test").delay_ms, 2000);
    m.report_rate_limited("c.test");
    assert_eq!(m.domain_state("c.test").delay_ms, 4000);
    m.report_rate_limited("c.test");
    m.report_rate_limited("c.test");
    // After three signals the delay is the default times two cubed.
    assert_eq!(m.domain_state("c.test").delay_ms, 16000);
    // Another domain is untouched.
    assert_eq!(m.domain_state("d.test").delay_ms, 2000);
}

#[test]
fn double_delay_saturates() {
    assert_eq!(double_delay(2000), 4000);
    assert_eq!(double_delay(u64::MAX / 2 + 1), u64::MAX);
    assert_eq!(double_delay(u64::MAX), u64::MAX);
}

#[test]
fn first_request_admitted_at_once() {
    let mut m = manager();
    let wait = m.wait_for_politeness("a.test", 5000).unwrap();
    assert_eq!(wait, 0);
    let s = m.domain_state("a.test");
    assert_eq!(s.last_access, Some(5000));
    assert!(s.in_flight);
}

#[test]
fn second_request_spaced_by_delay() {
    let mut m = manager();
    assert_eq!(m.wait_for_politeness("a.test", 1000), Some(0));
    m.finish_request("a.test");
    // 1500 ms later, only 500 of the 2000 ms interval have passed.
    let wait = m.wait_for_politeness("a.test", 1500).unwrap();
    assert_eq!(wait, 1500);
    // The admitted start is exactly the earlier start plus the interval.
    assert_eq!(m.domain_state("a.test").last_access, Some(3000));
}

#[test]
fn interval_elapsed_admits_at_once() {
    let mut m = manager();
    assert_eq!(m.wait_for_politeness("a.test", 1000), Some(0));
    m.finish_request("a.test");
    assert_eq!(m.wait_for_politeness("a.test", 4000), Some(0));
    assert_eq!(m.domain_state("a.test").last_access, Some(4000));
}

#[test]
fn busy_domain_is_not_admitted() {
    let mut m = manager();
    assert_eq!(m.wait_for_politeness("a.test", 0), Some(0));
    // The token is held until the fetch completes: a second worker is
    // refused, whatever the clock says.
    assert_eq!(m.wait_for_politeness("a.test", 1_000_000), None);
    m.finish_request("a.test");
    assert!(m.wait_for_politeness("a.test", 1_000_000).is_some());
}

#[test]
fn robots_unfetched_default_allows() {
    let m = manager();
    assert!(m.needs_robots("a.test"));
    assert!(m.can_crawl(&url("https://a.test/anything/at/all")));
}

#[test]
fn robots_failed_fetch_default_allows() {
    let mut m = manager();
    m.mark_robots_failed("a.test".to_string());
    assert!(!m.needs_robots("a.test"));
    assert!(m.can_crawl(&url("https://a.test/private/x")));
}

#[test]
fn robots_garbage_text_default_allows() {
    let mut m = manager();
    m.update_robots("a.test".to_string(), "%%% not a robots file &&&\u{1}\u{2}");
    assert!(m.can_crawl(&url("https://a.test/private/x")));
}

#[test]
fn robots_empty_text_allows() {
    let mut m = manager();
    m.update_robots("a.test".to_string(), "");
    assert!(m.can_crawl(&url("https://a.test/whatever")));
}

#[test]
fn robots_disallow_respected() {
    let mut m = manager();
    m.update_robots(
        "a.test".to_string(),
        "User-agent: *\nDisallow: /private/\n",
    );
    assert!(!m.can_crawl(&url("https://a.test/private/page")));
    assert!(m.can_crawl(&url("https://a.test/public/page")));
}

#[test]
fn robots_cache_never_expires() {
    let mut m = manager();
    m.update_robots(
        "a.test".to_string(),
        "User-agent: *\nDisallow: /private/\n",
    );
    // A second body for the same domain within the run is ignored.
    m.update_robots("a.test".to_string(), "User-agent: *\nDisallow: /\n");
    assert!(m.can_crawl(&url("https://a.test/public/page")));
    assert!(!m.can_crawl(&url("https://a.test/private/page")));
}

#[test]
fn domains_gate_independently() {
    let mut m = manager();
    // A held token on one domain never blocks another domain.
    assert_eq!(m.wait_for_politeness("a.test", 0), Some(0));
    assert_eq!(m.wait_for_politeness("b.test", 0), Some(0));
    m.report_rate_limited("a.test");
    m.finish_request("a.test");
    m.finish_request("b.test");
    // Backoff on one domain leaves the other's interval alone.
    assert_eq!(m.wait_for_politeness("a.test", 1000).unwrap(), 3000);
    assert_eq!(m.wait_for_politeness("b.test", 1000).unwrap(), 1000);
}

#[test]
fn url_without_domain_is_refused() {
    let m = manager();
    // An IP-address URL has no registrable domain.
    assert!(!m.can_crawl(&url("https://127.0.0.1/x")));
}
