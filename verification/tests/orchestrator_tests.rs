use crawler::model::{CrawlConfig, Headers};
use crawler::orchestrator::{CrawlOrchestrator, CycleReport, FetchOutcome};

fn config(max_depth: Option<usize>) -> CrawlConfig {
    let mut c = CrawlConfig::default();
    c.max_depth = max_depth;
    c
}

fn response(status: u16, body: &str) -> FetchOutcome {
    FetchOutcome::Response {
        status,
        headers: Headers::new(),
        body: body.to_string(),
    }
}

#[test]
fn scenario_end_to_end_depth_one() {
    let mut orch = CrawlOrchestrator::new(config(Some(1)));
    assert!(orch.seed("https://a.test/"));
    assert!(!orch.is_quiescent());

    let entry = orch.next_url().unwrap();
    assert_eq!(entry.url.full_str(), "https://a.test/");
    assert_eq!(entry.depth, 0);

    let html = "<html><body><a href=\"/x\">x</a><a href=\"https://b.test/y\">y</a></body></html>";
    let report = orch.on_fetched(&entry.url, entry.depth, response(200, html), 1000);
    let page = match report {
        CycleReport::Page(p) => p,
        _ => panic!("expected a page"),
    };
    assert_eq!(page.status_code, 200);
    assert_eq!(page.outgoing_links.len(), 2);
    orch.finish_cycle("a.test");

    // Exactly the two discovered links were admitted, at depth 1.
    let e1 = orch.next_url().unwrap();
    assert_eq!(e1.url.full_str(), "https://a.test/x");
    assert_eq!(e1.depth, 1);
    let e2 = orch.next_url().unwrap();
    assert_eq!(e2.url.full_str(), "https://b.test/y");
    assert_eq!(e2.depth, 1);
    assert_eq!(orch.queue_len(), 0);

    // A repeat admission of an already-seen URL is a no-op.
    assert!(orch.seed("https://a.test/x"));
    assert_eq!(orch.queue_len(), 0);
}

#[test]
fn scenario_depth_bound_stops_expansion() {
    let mut orch = CrawlOrchestrator::new(config(Some(1)));
    assert!(orch.seed("https://a.test/"));
    let entry = orch.next_url().unwrap();
    let report = orch.on_fetched(
        &entry.url,
        entry.depth,
        response(200, "<html><body><a href=\"/x\">x</a></body></html>"),
        0,
    );
    assert!(matches!(report, CycleReport::Page(_)));
    orch.finish_cycle("a.test");
    // The depth-1 page's own links would be at depth 2: dropped silently.
    let e1 = orch.next_url().unwrap();
    assert_eq!(e1.depth, 1);
    let report = orch.on_fetched(
        &e1.url,
        e1.depth,
        response(200, "<html><body><a href=\"/deeper\">d</a></body></html>"),
        0,
    );
    assert!(matches!(report, CycleReport::Page(_)));
    orch.finish_cycle("a.test");
    assert_eq!(orch.queue_len(), 0);
}

#[test]
fn scenario_rate_limited_doubles_and_waits() {
    let mut orch = CrawlOrchestrator::new(config(None));
    assert!(orch.seed("https://c.test/"));
    let entry = orch.next_url().unwrap();

    let wait = orch.wait_for_politeness("c.test", 0).unwrap();
    assert_eq!(wait, 0);

    // The domain answers 429 on the first fetch: the worker records a
    // doubled delay and does not crash.
    let report = orch.on_fetched(&entry.url, entry.depth, response(429, ""), 0);
    match report {
        CycleReport::RateLimited { new_delay_ms } => assert_eq!(new_delay_ms, 4000),
        _ => panic!("expected a rate-limit report"),
    }
    orch.finish_cycle("c.test");
    assert_eq!(orch.domain_state("c.test").delay_ms, 4000);

    // A subsequent fetch to the domain waits out the new delay: admitted
    // to start at 4000, a full doubled interval after the first start.
    assert!(orch.seed("https://c.test/again"));
    let _entry2 = orch.next_url().unwrap();
    let wait2 = orch.wait_for_politeness("c.test", 1000).unwrap();
    assert_eq!(wait2, 3000);
    assert_eq!(orch.domain_state("c.test").last_access, Some(4000));
}

#[test]
fn scenario_not_modified_reprocesses_nothing() {
    let mut orch = CrawlOrchestrator::new(config(None));
    assert!(orch.seed("https://d.test/cached"));
    let entry = orch.next_url().unwrap();
    assert_eq!(orch.queue_len(), 0);

    // The server answered 304 to a conditional request with a cached ETag:
    // the cycle reports "not modified", extracts nothing, enqueues nothing.
    let report = orch.on_fetched(&entry.url, entry.depth, FetchOutcome::NotModified, 500);
    assert!(matches!(report, CycleReport::NotModified));
    assert_eq!(orch.queue_len(), 0);
    orch.finish_cycle("d.test");
    assert!(orch.is_quiescent());
}

#[test]
fn network_error_drops_url_only() {
    let mut orch = CrawlOrchestrator::new(config(None));
    assert!(orch.seed("https://e.test/"));
    let entry = orch.next_url().unwrap();
    let report = orch.on_fetched(&entry.url, entry.depth, FetchOutcome::NetworkError, 0);
    assert!(matches!(report, CycleReport::FetchError));
    assert_eq!(orch.queue_len(), 0);
    orch.finish_cycle("e.test");
    assert!(orch.is_quiescent());
}

#[test]
fn other_status_is_reported_as_data() {
    let mut orch = CrawlOrchestrator::new(config(None));
    assert!(orch.seed("https://e.test/missing"));
    let entry = orch.next_url().unwrap();
    let report = orch.on_fetched(&entry.url, entry.depth, response(404, "gone"), 0);
    match report {
        CycleReport::OtherStatus(s) => assert_eq!(s, 404),
        _ => panic!("expected a status report"),
    }
    assert_eq!(orch.queue_len(), 0);
}

#[test]
fn bad_seed_is_skipped() {
    let mut orch = CrawlOrchestrator::new(config(None));
    assert!(!orch.seed("not a url"));
    assert_eq!(orch.queue_len(), 0);
    assert!(orch.is_quiescent());
}

#[test]
fn robots_flow_blocks_disallowed_path() {
    let mut orch = CrawlOrchestrator::new(config(None));
    assert!(orch.seed("https://a.test/private/page"));
    let entry = orch.next_url().unwrap();
    assert!(orch.needs_robots("a.test"));
    orch.update_robots(
        "a.test".to_string(),
        "User-agent: *\nDisallow: /private/\n",
    );
    assert!(!orch.needs_robots("a.test"));
    assert!(!orch.can_crawl(&entry.url));
    orch.skip_cycle();
    assert!(orch.is_quiescent());
}

#[test]
fn robots_failed_fetch_allows_crawl() {
    let mut orch = CrawlOrchestrator::new(config(None));
    assert!(orch.seed("https://a.test/anything"));
    let entry = orch.next_url().unwrap();
    orch.mark_robots_failed("a.test".to_string());
    assert!(orch.can_crawl(&entry.url));
    orch.skip_cycle();
}

#[test]
fn quiescence_requires_no_in_flight_cycle() {
    let mut orch = CrawlOrchestrator::new(config(None));
    assert!(orch.seed("https://a.test/"));
    let entry = orch.next_url().unwrap();
    // The queue is empty, but a cycle is mid-flight: it may still enqueue
    // links it discovered, so the crawl has not terminated.
    assert_eq!(orch.queue_len(), 0);
    assert!(!orch.is_quiescent());
    let report = orch.on_fetched(
        &entry.url,
        entry.depth,
        response(200, "<html><body><a href=\"/late\">l</a></body></html>"),
        0,
    );
    assert!(matches!(report, CycleReport::Page(_)));
    orch.finish_cycle("a.test");
    assert!(!orch.is_quiescent());
    assert_eq!(orch.next_url().unwrap().url.full_str(), "https://a.test/late");
}
