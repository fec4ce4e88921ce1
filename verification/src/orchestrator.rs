//! The crawl orchestrator: one worker cycle dequeues a URL, consults the
//! robots policy and the politeness gate, hands the fetched response back,
//! and the orchestrator decides — extract and enqueue on success, double
//! the domain's interval on a rate-limit signal, log and move on otherwise.
//! The caller performs the waiting and the network I/O; every decision is
//! made here.

use vstd::prelude::*;

verus! {

use crate::frontier::{frontier_add, frontier_add_all, frontier_wf, FrontierEntry, FrontierModel, URLFrontier};
use crate::model::{header_lookup, CrawlConfig, CrawledPage, Headers};
use crate::parser::{links_of, md5_hex_of, text_content_spec, Parser};
use crate::politeness::{
    domain_step, domain_step_ok, robots_decision, start_time, DomainEvent, DomainState,
    PolitenessManager,
};
use crate::urlutil::{url_parse_spec, CrawlUrl};
use vstd::utf8::is_ascii_chars;

/// What one fetch attempt came back with, as plain values.
pub enum FetchOutcome {
    /// A conditional request was answered "not modified"; no body was read.
    NotModified,
    /// The server answered with a status, headers and body.
    Response { status: u16, headers: Headers, body: String },
    /// The request failed at the network level (timeout, connection
    /// refused, name resolution); there is no page, not even one with a
    /// made-up status.
    NetworkError,
}

/// What one worker cycle decided, for the caller to log, store or ignore.
pub enum CycleReport {
    /// The page was fetched and extracted and its links enqueued: offer it
    /// to the storage sink.
    Page(CrawledPage),
    /// The cached copy is still fresh; nothing was extracted or enqueued.
    NotModified,
    /// The domain asked for a slowdown; its interval was doubled and the
    /// URL dropped for this cycle.
    RateLimited { new_delay_ms: u64 },
    /// The fetch failed at the network level; the URL is dropped.
    FetchError,
    /// Any other status: recorded, nothing extracted or enqueued.
    OtherStatus(u16),
}

/// The crawl's shared state: configuration, frontier and per-domain
/// politeness, plus a count of cycles currently between dequeue and
/// completion, for the termination (quiescence) check.
pub struct CrawlOrchestrator {
    /// The run's configuration.
    pub config: CrawlConfig,
    frontier: URLFrontier,
    politeness: PolitenessManager,
    in_flight: usize,
}

impl CrawlOrchestrator {
    /// The frontier's current model.
    pub closed spec fn frontier_view(&self) -> FrontierModel {
        self.frontier@
    }

    /// A domain's politeness state.
    pub closed spec fn domain_view(&self, d: Seq<char>) -> DomainState {
        self.politeness.domain_view(d)
    }

    /// A domain's cached robots policy.
    pub closed spec fn robots_view(&self, d: Seq<char>) -> Option<Option<Seq<char>>> {
        self.politeness.robots_view(d)
    }

    /// The identifying user-agent policy decisions are evaluated against.
    pub closed spec fn agent_view(&self) -> Seq<char> {
        self.politeness.agent_view()
    }

    /// How many worker cycles are between dequeue and completion.
    pub closed spec fn in_flight_view(&self) -> usize {
        self.in_flight
    }

    /// The configuration the crawl was started with.
    pub closed spec fn config_view(&self) -> CrawlConfig {
        self.config
    }

    /// The crawl has terminated: no pending work and no cycle mid-flight.
    /// An empty queue alone is not termination — a mid-flight cycle may
    /// still enqueue the links it discovered.
    pub open spec fn is_quiescent_spec(&self) -> bool {
        self.frontier_view().queue.len() == 0 && self.in_flight_view() == 0
    }

    /// A fresh crawl for a configuration: empty frontier bounded by the
    /// configured depth, fresh politeness, nothing in flight.
    pub fn new(config: CrawlConfig) -> (r: CrawlOrchestrator)
        ensures
            r.frontier_view().queue.len() == 0,
            r.frontier_view().seen.len() == 0,
            r.frontier_view().max_depth == config.max_depth,
            frontier_wf(r.frontier_view()),
            r.agent_view() == config.user_agent@,
            forall|d: Seq<char>|
                r.domain_view(d) == crate::politeness::fresh_state(config.default_delay_ms),
            forall|d: Seq<char>| r.robots_view(d) is None,
            r.in_flight_view() == 0,
            r.config_view() == config,
    {
        let politeness = PolitenessManager::new(&config);
        let frontier = match config.max_depth {
            Some(d) => URLFrontier::with_max_depth(d),
            None => URLFrontier::new(),
        };
        CrawlOrchestrator { config, frontier, politeness, in_flight: 0 }
    }

    /// Admits a seed URL at depth zero. A string that is not an absolute
    /// URL is skipped and reported false — a bad seed never aborts the
    /// crawl.
    pub fn seed(&mut self, url: &str) -> (r: bool)
        requires
            frontier_wf(old(self).frontier_view()),
        ensures
            frontier_wf(final(self).frontier_view()),
            r == (url_parse_spec(url@) is Some),
            r ==> (url_parse_spec(url@) matches Some(u) && final(self).frontier_view()
                == frontier_add(old(self).frontier_view(), u, 0)),
            !r ==> final(self).frontier_view() == old(self).frontier_view(),
            final(self).in_flight_view() == old(self).in_flight_view(),
            forall|d: Seq<char>| final(self).domain_view(d) == old(self).domain_view(d),
            forall|d: Seq<char>| final(self).robots_view(d) == old(self).robots_view(d),
            final(self).agent_view() == old(self).agent_view(),
    {
        match CrawlUrl::parse(url) {
            Some(u) => {
                self.frontier.add_url(u, 0);
                true
            }
            None => false,
        }
    }

    /// Pops the next unit of work, counting the cycle as in flight; `None`
    /// when the queue is empty.
    pub fn next_url(&mut self) -> (r: Option<FrontierEntry>)
        requires
            frontier_wf(old(self).frontier_view()),
            old(self).in_flight_view() < usize::MAX,
        ensures
            frontier_wf(final(self).frontier_view()),
            final(self).frontier_view().seen == old(self).frontier_view().seen,
            final(self).frontier_view().max_depth == old(self).frontier_view().max_depth,
            match r {
                Some(e) => {
                    &&& old(self).frontier_view().queue.len() > 0
                    &&& e@ == old(self).frontier_view().queue[0]
                    &&& final(self).frontier_view().queue == old(
                        self,
                    ).frontier_view().queue.drop_first()
                    &&& final(self).in_flight_view() == old(self).in_flight_view() + 1
                },
                None => {
                    &&& old(self).frontier_view().queue.len() == 0
                    &&& final(self).frontier_view() == old(self).frontier_view()
                    &&& final(self).in_flight_view() == old(self).in_flight_view()
                },
            },
            forall|d: Seq<char>| final(self).domain_view(d) == old(self).domain_view(d),
            forall|d: Seq<char>| final(self).robots_view(d) == old(self).robots_view(d),
            final(self).agent_view() == old(self).agent_view(),
    {
        let r = self.frontier.next_url();
        if r.is_some() {
            self.in_flight = self.in_flight + 1;
        }
        r
    }

    /// Whether the robots policy for a domain still has to be fetched (the
    /// caller then fetches `https://{domain}/robots.txt` and reports back).
    pub fn needs_robots(&self, domain: &str) -> (r: bool)
        ensures
            r == (self.robots_view(domain@) is None),
    {
        self.politeness.needs_robots(domain)
    }

    /// Caches a fetched robots.txt body for a domain, once per run.
    pub fn update_robots(&mut self, domain: String, content: &str)
        ensures
            old(self).robots_view(domain@) is Some ==> final(self).robots_view(domain@) == old(
                self,
            ).robots_view(domain@),
            old(self).robots_view(domain@) is None ==> final(self).robots_view(domain@) == Some(
                Some(content@),
            ),
            forall|d: Seq<char>|
                d != domain@ ==> final(self).robots_view(d) == old(self).robots_view(d),
            forall|d: Seq<char>| final(self).domain_view(d) == old(self).domain_view(d),
            final(self).frontier_view() == old(self).frontier_view(),
            final(self).in_flight_view() == old(self).in_flight_view(),
            final(self).agent_view() == old(self).agent_view(),
    {
        self.politeness.update_robots(domain, content);
    }

    /// Records a failed robots.txt fetch: the domain is default-allow for
    /// the rest of the run.
    pub fn mark_robots_failed(&mut self, domain: String)
        ensures
            old(self).robots_view(domain@) is Some ==> final(self).robots_view(domain@) == old(
                self,
            ).robots_view(domain@),
            old(self).robots_view(domain@) is None ==> final(self).robots_view(domain@) == Some(
                None::<Seq<char>>,
            ),
            forall|d: Seq<char>|
                d != domain@ ==> final(self).robots_view(d) == old(self).robots_view(d),
            forall|d: Seq<char>| final(self).domain_view(d) == old(self).domain_view(d),
            final(self).frontier_view() == old(self).frontier_view(),
            final(self).in_flight_view() == old(self).in_flight_view(),
            final(self).agent_view() == old(self).agent_view(),
    {
        self.politeness.mark_robots_failed(domain);
    }

    /// Whether the cached robots policy lets the crawl fetch this URL.
    /// The identifying agent must be ASCII: the robots matcher cannot
    /// take a multi-byte one.
    pub fn can_crawl(&self, url: &CrawlUrl) -> (r: bool)
        requires
            is_ascii_chars(self.agent_view()),
        ensures
            r == (url@.host.len() > 0 && robots_decision(
                self.robots_view(url@.host),
                self.agent_view(),
                url@.path,
            )),
            ({
                &&& url@.host.len() > 0
                &&& self.robots_view(url@.host) matches Some(Some(t)) && t.len() == 0
            }) ==> r,
    {
        self.politeness.can_crawl(url)
    }

    /// Admits a request to a domain at time `now`: `Some(w)` tells the
    /// caller to wait `w` milliseconds and then fetch — the domain's token
    /// is held and its clock stamped with that start. `None` means the
    /// domain already has a request in flight.
    pub fn wait_for_politeness(&mut self, domain: &str, now: u64) -> (r: Option<u64>)
        ensures
            r is Some <==> (!old(self).domain_view(domain@).in_flight && start_time(
                old(self).domain_view(domain@),
                now,
            ) <= u64::MAX),
            r matches Some(wait) ==> {
                &&& now + wait == start_time(old(self).domain_view(domain@), now)
                &&& domain_step_ok(
                    old(self).domain_view(domain@),
                    DomainEvent::Begin { at: (now + wait) as u64 },
                )
                &&& final(self).domain_view(domain@) == domain_step(
                    old(self).domain_view(domain@),
                    DomainEvent::Begin { at: (now + wait) as u64 },
                )
            },
            r is None ==> final(self).domain_view(domain@) == old(self).domain_view(domain@),
            forall|d: Seq<char>|
                d != domain@ ==> final(self).domain_view(d) == old(self).domain_view(d),
            forall|d: Seq<char>| final(self).robots_view(d) == old(self).robots_view(d),
            final(self).frontier_view() == old(self).frontier_view(),
            final(self).in_flight_view() == old(self).in_flight_view(),
            final(self).agent_view() == old(self).agent_view(),
    {
        self.politeness.wait_for_politeness(domain, now)
    }

    /// Reads a domain's politeness state.
    pub fn domain_state(&self, domain: &str) -> (r: DomainState)
        ensures
            r == self.domain_view(domain@),
    {
        self.politeness.domain_state(domain)
    }

    /// Decides what a fetch outcome means, at `now` on the caller's clock:
    /// a 200 is extracted, its links enqueued one depth further, and the
    /// finished page returned for the sink; a 304 and a network failure
    /// change nothing; a 429 doubles the domain's interval; any other
    /// status is only reported. The politeness token stays held until
    /// `finish_cycle`.
    pub fn on_fetched(
        &mut self,
        url: &CrawlUrl,
        depth: usize,
        outcome: FetchOutcome,
        now: u64,
    ) -> (r: CycleReport)
        requires
            frontier_wf(old(self).frontier_view()),
            depth < usize::MAX,
        ensures
            frontier_wf(final(self).frontier_view()),
            final(self).in_flight_view() == old(self).in_flight_view(),
            final(self).agent_view() == old(self).agent_view(),
            forall|d: Seq<char>| final(self).robots_view(d) == old(self).robots_view(d),
            match outcome {
                FetchOutcome::NotModified => {
                    &&& r is NotModified
                    &&& final(self).frontier_view() == old(self).frontier_view()
                    &&& forall|d: Seq<char>|
                        final(self).domain_view(d) == old(self).domain_view(d)
                },
                FetchOutcome::NetworkError => {
                    &&& r is FetchError
                    &&& final(self).frontier_view() == old(self).frontier_view()
                    &&& forall|d: Seq<char>|
                        final(self).domain_view(d) == old(self).domain_view(d)
                },
                FetchOutcome::Response { status, headers, body } => {
                    if status == 200 {
                        &&& r matches CycleReport::Page(p) && {
                            &&& p.url@ == url@
                            &&& p.status_code == status
                            &&& p.headers == headers
                            &&& p.html == body
                            &&& p.timestamp == now
                            &&& p.outgoing_links.deep_view() == links_of(body@, url@.full)
                            &&& p.text_content@ == text_content_spec(body@)
                            &&& p.content_hash@ == md5_hex_of(text_content_spec(body@))
                            &&& p.etag.deep_view() == header_lookup(headers@, "ETag"@)
                            &&& p.last_modified.deep_view() == header_lookup(
                                headers@,
                                "Last-Modified"@,
                            )
                        }
                        &&& final(self).frontier_view() == frontier_add_all(
                            old(self).frontier_view(),
                            links_of(body@, url@.full),
                            (depth + 1) as usize,
                        )
                        &&& forall|d: Seq<char>|
                            final(self).domain_view(d) == old(self).domain_view(d)
                    } else if status == 429 {
                        &&& r matches CycleReport::RateLimited { new_delay_ms } && new_delay_ms
                            == domain_step(
                            old(self).domain_view(url@.host),
                            DomainEvent::RateLimit,
                        ).delay_ms
                        &&& final(self).domain_view(url@.host) == domain_step(
                            old(self).domain_view(url@.host),
                            DomainEvent::RateLimit,
                        )
                        &&& forall|d: Seq<char>|
                            d != url@.host ==> final(self).domain_view(d) == old(
                                self,
                            ).domain_view(d)
                        &&& final(self).frontier_view() == old(self).frontier_view()
                    } else {
                        &&& r == CycleReport::OtherStatus(status)
                        &&& final(self).frontier_view() == old(self).frontier_view()
                        &&& forall|d: Seq<char>|
                            final(self).domain_view(d) == old(self).domain_view(d)
                    }
                },
            },
    {
        match outcome {
            FetchOutcome::NotModified => CycleReport::NotModified,
            FetchOutcome::NetworkError => CycleReport::FetchError,
            FetchOutcome::Response { status, headers, body } => {
                if status == 200 {
                    let mut page = CrawledPage::from_fetch(
                        url.clone_url(),
                        status,
                        headers,
                        body,
                        now,
                    );
                    Parser::parse(&mut page);
                    self.frontier.add_urls(&page.outgoing_links, depth + 1);
                    CycleReport::Page(page)
                } else if status == 429 {
                    self.politeness.report_rate_limited(url.host_str());
                    let new_delay = self.politeness.domain_state(url.host_str()).delay_ms;
                    CycleReport::RateLimited { new_delay_ms: new_delay }
                } else {
                    CycleReport::OtherStatus(status)
                }
            }
        }
    }

    /// Ends a cycle whose URL was fetched: releases the domain's token and
    /// the in-flight count.
    pub fn finish_cycle(&mut self, domain: &str)
        requires
            old(self).in_flight_view() > 0,
        ensures
            final(self).domain_view(domain@) == domain_step(
                old(self).domain_view(domain@),
                DomainEvent::Finish,
            ),
            forall|d: Seq<char>|
                d != domain@ ==> final(self).domain_view(d) == old(self).domain_view(d),
            forall|d: Seq<char>| final(self).robots_view(d) == old(self).robots_view(d),
            final(self).frontier_view() == old(self).frontier_view(),
            final(self).in_flight_view() == old(self).in_flight_view() - 1,
            final(self).agent_view() == old(self).agent_view(),
    {
        self.politeness.finish_request(domain);
        self.in_flight = self.in_flight - 1;
    }

    /// Ends a cycle that never fetched (robots-denied, no domain, not
    /// admitted): only the in-flight count drops.
    pub fn skip_cycle(&mut self)
        requires
            old(self).in_flight_view() > 0,
        ensures
            final(self).frontier_view() == old(self).frontier_view(),
            final(self).in_flight_view() == old(self).in_flight_view() - 1,
            forall|d: Seq<char>| final(self).domain_view(d) == old(self).domain_view(d),
            forall|d: Seq<char>| final(self).robots_view(d) == old(self).robots_view(d),
            final(self).agent_view() == old(self).agent_view(),
    {
        self.in_flight = self.in_flight - 1;
    }

    /// How many entries are pending.
    pub fn queue_len(&self) -> (r: usize)
        ensures
            r == self.frontier_view().queue.len(),
    {
        self.frontier.queue_len()
    }

    /// Whether this URL was ever admitted to the frontier.
    pub fn has_seen(&self, url: &CrawlUrl) -> (r: bool)
        ensures
            r == self.frontier_view().seen.contains(url@.full),
    {
        self.frontier.has_seen(url)
    }

    /// The termination check: no pending work and no cycle in flight.
    pub fn is_quiescent(&self) -> (r: bool)
        ensures
            r == self.is_quiescent_spec(),
    {
        self.frontier.queue_len() == 0 && self.in_flight == 0
    }
}

} // verus!
