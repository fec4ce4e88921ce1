//! Per-domain politeness: each domain carries the timestamp of the last
//! admitted request start, the current minimum inter-request interval, and
//! an exclusive in-flight token. The admissible transitions of one domain's
//! state form a small state machine; its traces carry the crawl's politeness
//! guarantees (spacing, mutual exclusion, monotone backoff).

use vstd::prelude::*;

verus! {

use vstd::assert_by_contradiction;
use vstd::string::is_ascii;
use vstd::utf8::is_ascii_chars;
use crate::double_delay;
use crate::urlutil::lemma_url_path_ascii;
use crate::double_delay_spec;
use crate::model::CrawlConfig;
use crate::strutil::str_eq;
use crate::urlutil::CrawlUrl;

/// One domain's politeness state. Times are milliseconds on the caller's
/// clock; `delay_ms` only ever grows within a run.
#[derive(Clone, Copy)]
pub struct DomainState {
    /// When the last admitted request to this domain started, if any.
    pub last_access: Option<u64>,
    /// The current minimum interval between request starts.
    pub delay_ms: u64,
    /// Whether a request to this domain is in flight right now.
    pub in_flight: bool,
}

/// The state a domain has before its first request.
pub open spec fn fresh_state(default_delay_ms: u64) -> DomainState {
    DomainState { last_access: None, delay_ms: default_delay_ms, in_flight: false }
}

/// The things that can happen to one domain's state.
pub enum DomainEvent {
    /// An admitted request starts at time `at`.
    Begin { at: u64 },
    /// The in-flight request completes (however it ended).
    Finish,
    /// The in-flight request came back with a rate-limit signal.
    RateLimit,
}

/// The earliest moment the next request to this domain may start.
pub open spec fn ready_at(s: DomainState) -> int {
    match s.last_access {
        Some(t) => t + s.delay_ms,
        None => 0,
    }
}

/// Whether an event is admissible in a state: a request may begin only when
/// none is in flight and the minimum interval has elapsed; only an in-flight
/// request can finish.
pub open spec fn domain_step_ok(s: DomainState, ev: DomainEvent) -> bool {
    match ev {
        DomainEvent::Begin { at } => !s.in_flight && ready_at(s) <= at,
        DomainEvent::Finish => s.in_flight,
        DomainEvent::RateLimit => true,
    }
}

/// The state after an event: a begin takes the token and stamps the clock,
/// a finish releases the token, a rate-limit signal doubles the interval.
pub open spec fn domain_step(s: DomainState, ev: DomainEvent) -> DomainState {
    match ev {
        DomainEvent::Begin { at } => DomainState {
            last_access: Some(at),
            delay_ms: s.delay_ms,
            in_flight: true,
        },
        DomainEvent::Finish => DomainState {
            last_access: s.last_access,
            delay_ms: s.delay_ms,
            in_flight: false,
        },
        DomainEvent::RateLimit => DomainState {
            last_access: s.last_access,
            delay_ms: double_delay_spec(s.delay_ms),
            in_flight: s.in_flight,
        },
    }
}

/// Whether every event of a trace is admissible in the state it meets.
pub open spec fn trace_ok(s: DomainState, evs: Seq<DomainEvent>) -> bool
    decreases evs.len(),
{
    evs.len() == 0 || (domain_step_ok(s, evs[0]) && trace_ok(domain_step(s, evs[0]), evs.drop_first()))
}

/// The state a trace ends in.
pub open spec fn run_trace(s: DomainState, evs: Seq<DomainEvent>) -> DomainState
    decreases evs.len(),
{
    if evs.len() == 0 {
        s
    } else {
        run_trace(domain_step(s, evs[0]), evs.drop_first())
    }
}

/// How many rate-limit signals a trace carries.
pub open spec fn count_rate_limits(evs: Seq<DomainEvent>) -> nat
    decreases evs.len(),
{
    if evs.len() == 0 {
        0
    } else {
        (if evs[0] is RateLimit {
            1nat
        } else {
            0nat
        }) + count_rate_limits(evs.drop_first())
    }
}

/// Two to the n-th power.
pub open spec fn pow2(n: nat) -> nat
    decreases n,
{
    if n == 0 {
        1
    } else {
        2 * pow2((n - 1) as nat)
    }
}

/// Running a one-event trace is taking one step.
proof fn lemma_run_singleton(s: DomainState, ev: DomainEvent)
    ensures
        run_trace(s, seq![ev]) == domain_step(s, ev),
{
    assert(seq![ev].drop_first() =~= Seq::<DomainEvent>::empty());
    assert(seq![ev][0] == ev);
    assert(run_trace(domain_step(s, ev), seq![ev].drop_first()) == domain_step(s, ev));
}

/// A trace can be cut anywhere: running the prefix and then the suffix is
/// running the whole, and an admissible trace stays admissible on both sides
/// of the cut.
pub proof fn lemma_trace_split(s: DomainState, evs: Seq<DomainEvent>, k: int)
    requires
        0 <= k <= evs.len(),
    ensures
        run_trace(s, evs) == run_trace(run_trace(s, evs.take(k)), evs.skip(k)),
        trace_ok(s, evs) ==> trace_ok(s, evs.take(k)) && trace_ok(
            run_trace(s, evs.take(k)),
            evs.skip(k),
        ),
    decreases k,
{
    if k == 0 {
        assert(evs.take(0) =~= Seq::<DomainEvent>::empty());
        assert(evs.skip(0) =~= evs);
    } else {
        let s1 = domain_step(s, evs[0]);
        assert(evs.take(k).drop_first() =~= evs.drop_first().take(k - 1));
        assert(evs.skip(k) =~= evs.drop_first().skip(k - 1));
        assert(evs.take(k)[0] == evs[0]);
        lemma_trace_split(s1, evs.drop_first(), k - 1);
    }
}

/// Within an admissible trace, the recorded last-access time never moves
/// backwards and the interval never shrinks.
pub proof fn lemma_state_monotone(s: DomainState, evs: Seq<DomainEvent>)
    requires
        trace_ok(s, evs),
    ensures
        run_trace(s, evs).delay_ms >= s.delay_ms,
        s.last_access is Some ==> run_trace(s, evs).last_access is Some
            && run_trace(s, evs).last_access->0 >= s.last_access->0,
    decreases evs.len(),
{
    if evs.len() > 0 {
        let s1 = domain_step(s, evs[0]);
        lemma_state_monotone(s1, evs.drop_first());
    }
}

/// A begin event starts no earlier than the last access recorded when the
/// trace began, plus the interval in force at the moment of admission.
proof fn lemma_begin_spacing(s: DomainState, evs: Seq<DomainEvent>, j: int)
    requires
        trace_ok(s, evs),
        0 <= j < evs.len(),
        evs[j] is Begin,
        s.last_access is Some,
    ensures
        evs[j]->Begin_at >= s.last_access->0 + run_trace(s, evs.take(j)).delay_ms,
    decreases j,
{
    if j == 0 {
        assert(evs.take(0) =~= Seq::<DomainEvent>::empty());
    } else {
        let s1 = domain_step(s, evs[0]);
        assert(evs.drop_first()[j - 1] == evs[j]);
        assert(evs.take(j).drop_first() =~= evs.drop_first().take(j - 1));
        assert(evs.take(j)[0] == evs[0]);
        lemma_begin_spacing(s1, evs.drop_first(), j - 1);
        match evs[0] {
            DomainEvent::Begin { at } => {
                assert(at >= s.last_access->0 + s.delay_ms);
            }
            _ => {}
        }
    }
}

/// Politeness interval: for two admitted request starts to the same domain,
/// the later one begins at least the interval in force at its admission
/// after the earlier one — the wall-clock gap between consecutive admitted
/// starts is never shorter than the domain's delay.
pub proof fn lemma_politeness_interval(
    s: DomainState,
    evs: Seq<DomainEvent>,
    i: int,
    j: int,
)
    requires
        trace_ok(s, evs),
        0 <= i < j < evs.len(),
        evs[i] is Begin,
        evs[j] is Begin,
    ensures
        evs[j]->Begin_at >= evs[i]->Begin_at + run_trace(s, evs.take(j)).delay_ms,
{
    lemma_trace_split(s, evs, i + 1);
    let si = run_trace(s, evs.take(i + 1));
    lemma_trace_split(s, evs.take(i + 1), i);
    assert(evs.take(i + 1).take(i) =~= evs.take(i));
    assert(evs.take(i + 1).skip(i) =~= seq![evs[i]]);
    lemma_run_singleton(run_trace(s, evs.take(i)), evs[i]);
    assert(si.last_access == Some(evs[i]->Begin_at));
    let tail = evs.skip(i + 1);
    assert(tail[j - i - 1] == evs[j]);
    lemma_begin_spacing(si, tail, j - i - 1);
    assert(evs.take(j).take(i + 1) =~= evs.take(i + 1));
    assert(evs.take(j).skip(i + 1) =~= tail.take(j - i - 1));
    lemma_trace_split(s, evs.take(j), i + 1);
}

/// While no finish occurs, a held token stays held and no new request can
/// begin.
proof fn lemma_no_finish_stays_in_flight(s: DomainState, evs: Seq<DomainEvent>)
    requires
        trace_ok(s, evs),
        s.in_flight,
        forall|k: int| 0 <= k < evs.len() ==> !(evs[k] is Finish),
    ensures
        forall|k: int| 0 <= k < evs.len() ==> !(evs[k] is Begin),
    decreases evs.len(),
{
    if evs.len() > 0 {
        let s1 = domain_step(s, evs[0]);
        assert(!(evs[0] is Finish));
        assert(!(evs[0] is Begin));
        assert(s1.in_flight);
        assert(forall|k: int|
            0 <= k < evs.drop_first().len() ==> !(evs.drop_first()[k] is Finish));
        lemma_no_finish_stays_in_flight(s1, evs.drop_first());
        assert forall|k: int| 0 <= k < evs.len() implies !(evs[k] is Begin) by {
            if k > 0 {
                assert(evs.drop_first()[k - 1] == evs[k]);
            }
        }
    }
}

/// Mutual exclusion: between any two admitted request starts to the same
/// domain stands a finish — no two fetches to one domain are ever in flight
/// at once.
pub proof fn lemma_mutual_exclusion(s: DomainState, evs: Seq<DomainEvent>, i: int, j: int)
    requires
        trace_ok(s, evs),
        0 <= i < j < evs.len(),
        evs[i] is Begin,
        evs[j] is Begin,
    ensures
        exists|k: int| i < k < j && evs[k] is Finish,
{
    assert_by_contradiction!(exists|k: int| i < k < j && evs[k] is Finish, {
        lemma_trace_split(s, evs, i + 1);
        let si = run_trace(s, evs.take(i + 1));
        lemma_trace_split(s, evs.take(i + 1), i);
        assert(evs.take(i + 1).take(i) =~= evs.take(i));
        assert(evs.take(i + 1).skip(i) =~= seq![evs[i]]);
        lemma_run_singleton(run_trace(s, evs.take(i)), evs[i]);
        assert(si.in_flight);
        let tail = evs.skip(i + 1);
        let mid = tail.take(j - i);
        assert(trace_ok(si, tail));
        lemma_trace_split(si, tail, j - i);
        assert forall|k: int| 0 <= k < mid.len() implies !(mid[k] is Finish) by {
            assert(mid[k] == evs[i + 1 + k]);
        }
        lemma_no_finish_stays_in_flight(si, mid);
        assert(mid[j - i - 1] == evs[j]);
        assert(!(evs[j] is Begin));
    });
}

/// Backoff monotonicity: after a trace carrying N rate-limit signals the
/// interval is the starting interval times 2^N (as long as that product is
/// representable; the doubling saturates at the largest value otherwise).
pub proof fn lemma_backoff_doubling(s: DomainState, evs: Seq<DomainEvent>)
    requires
        trace_ok(s, evs),
        s.delay_ms * pow2(count_rate_limits(evs)) <= u64::MAX,
    ensures
        run_trace(s, evs).delay_ms == s.delay_ms * pow2(count_rate_limits(evs)),
    decreases evs.len(),
{
    if evs.len() == 0 {
        assert(run_trace(s, evs) == s);
        assert(count_rate_limits(evs) == 0);
        assert(pow2(0) == 1);
        assert(s.delay_ms * pow2(count_rate_limits(evs)) == s.delay_ms) by (nonlinear_arith)
            requires
                pow2(count_rate_limits(evs)) == 1,
        ;
    } else {
        let s1 = domain_step(s, evs[0]);
        let n = count_rate_limits(evs.drop_first());
        lemma_pow2_pos(n);
        match evs[0] {
            DomainEvent::RateLimit => {
                assert(count_rate_limits(evs) == 1 + n);
                assert(pow2(1 + n) == 2 * pow2(n));
                assert(s.delay_ms * (2 * pow2(n)) == (2 * s.delay_ms) * pow2(n))
                    by (nonlinear_arith);
                assert(2 * s.delay_ms <= (2 * s.delay_ms) * pow2(n)) by (nonlinear_arith)
                    requires
                        pow2(n) >= 1,
                        s.delay_ms >= 0,
                ;
                assert(s1.delay_ms == 2 * s.delay_ms);
                assert(s.delay_ms * pow2(count_rate_limits(evs)) == s1.delay_ms * pow2(n));
                lemma_backoff_doubling(s1, evs.drop_first());
                assert(run_trace(s, evs) == run_trace(s1, evs.drop_first()));
            }
            _ => {
                assert(count_rate_limits(evs) == n);
                assert(s1.delay_ms == s.delay_ms);
                lemma_backoff_doubling(s1, evs.drop_first());
                assert(run_trace(s, evs) == run_trace(s1, evs.drop_first()));
            }
        }
    }
}

/// Powers of two are positive.
proof fn lemma_pow2_pos(n: nat)
    ensures
        pow2(n) >= 1,
    decreases n,
{
    if n > 0 {
        lemma_pow2_pos((n - 1) as nat);
    }
}

/// What the `robots_txt` crate answers for a policy text, an identifying
/// agent and a path: the verdict is a function of the three strings alone.
pub uninterp spec fn robots_allows(text: Seq<char>, agent: Seq<char>, path: Seq<char>) -> bool;

/// Relies on `robots_txt`'s `Robots::from_str_lossy`, `choose_section` and
/// `SimpleMatcher::check_path`: parsing is lossy and total, the verdict
/// depends on the three strings alone, and a text with no rules — in
/// particular an empty one — allows every path (an empty text builds the
/// default section, whose sole `Disallow:` line is a global allow). The
/// matcher slices the agent and the path at rule byte lengths, which can
/// panic on a multi-byte character; the ASCII preconditions keep every
/// byte index a character boundary.
#[verifier::external_body]
fn robots_verdict(text: &str, agent: &str, path: &str) -> (r: bool)
    requires
        is_ascii(agent),
        is_ascii(path),
    ensures
        r == robots_allows(text@, agent@, path@),
        text@.len() == 0 ==> r,
{
    let robots = robots_txt::Robots::from_str_lossy(text);
    let section = robots.choose_section(agent);
    let matcher = robots_txt::matcher::SimpleMatcher::new(&section.rules);
    matcher.check_path(path)
}

/// The crawl verdict a cached robots policy gives: a domain whose policy
/// was never fetched, or whose fetch failed, is allowed by default.
pub open spec fn robots_decision(
    cached: Option<Option<Seq<char>>>,
    agent: Seq<char>,
    path: Seq<char>,
) -> bool {
    match cached {
        None => true,
        Some(None) => true,
        Some(Some(text)) => robots_allows(text, agent, path),
    }
}

/// Robots default-allow: for a domain whose robots.txt was never fetched,
/// or whose fetch failed (cached as unavailable), the policy allows every
/// path for every agent.
pub proof fn lemma_robots_default_allow(
    cached: Option<Option<Seq<char>>>,
    agent: Seq<char>,
    path: Seq<char>,
)
    requires
        cached is None || cached == Some(None::<Seq<char>>),
    ensures
        robots_decision(cached, agent, path),
{
}

/// The moment a request to a domain in state `s` asked for at time `now`
/// may start: right away, or when the minimum interval has elapsed.
pub open spec fn start_time(s: DomainState, now: u64) -> int {
    if ready_at(s) > now {
        ready_at(s)
    } else {
        now as int
    }
}

struct DomainEntry {
    name: String,
    state: DomainState,
}

struct RobotsEntry {
    domain: String,
    text: Option<String>,
}

spec fn find_state(entries: Seq<DomainEntry>, default_delay_ms: u64, name: Seq<char>) -> DomainState
    decreases entries.len(),
{
    if entries.len() == 0 {
        fresh_state(default_delay_ms)
    } else if entries[0].name@ == name {
        entries[0].state
    } else {
        find_state(entries.drop_first(), default_delay_ms, name)
    }
}

spec fn find_robots(entries: Seq<RobotsEntry>, domain: Seq<char>) -> Option<Option<Seq<char>>>
    decreases entries.len(),
{
    if entries.len() == 0 {
        None
    } else if entries[0].domain@ == domain {
        Some(entries[0].text.deep_view())
    } else {
        find_robots(entries.drop_first(), domain)
    }
}

proof fn lemma_find_state_update(
    entries: Seq<DomainEntry>,
    dd: u64,
    i: int,
    e: DomainEntry,
    name: Seq<char>,
)
    requires
        0 <= i < entries.len(),
        entries[i].name@ == name,
        e.name@ == name,
        forall|k: int| 0 <= k < i ==> entries[k].name@ != name,
    ensures
        find_state(entries.update(i, e), dd, name) == e.state,
        forall|d: Seq<char>|
            d != name ==> find_state(entries.update(i, e), dd, d) == find_state(entries, dd, d),
    decreases i,
{
    let upd = entries.update(i, e);
    if i == 0 {
        assert(upd[0] == e);
        assert(upd.drop_first() =~= entries.drop_first());
    } else {
        assert(upd[0] == entries[0]);
        assert(upd.drop_first() =~= entries.drop_first().update(i - 1, e));
        lemma_find_state_update(entries.drop_first(), dd, i - 1, e, name);
        assert forall|d: Seq<char>| d != name implies find_state(upd, dd, d) == find_state(
            entries,
            dd,
            d,
        ) by {
            if entries[0].name@ != d {
                assert(find_state(upd.drop_first(), dd, d) == find_state(
                    entries.drop_first(),
                    dd,
                    d,
                ));
            }
        }
    }
}

proof fn lemma_find_state_push(entries: Seq<DomainEntry>, dd: u64, e: DomainEntry)
    requires
        forall|k: int| 0 <= k < entries.len() ==> entries[k].name@ != e.name@,
    ensures
        find_state(entries.push(e), dd, e.name@) == e.state,
        forall|d: Seq<char>|
            d != e.name@ ==> find_state(entries.push(e), dd, d) == find_state(entries, dd, d),
    decreases entries.len(),
{
    let ext = entries.push(e);
    if entries.len() == 0 {
        assert(ext[0] == e);
        assert(ext.drop_first() =~= Seq::<DomainEntry>::empty());
        assert forall|d: Seq<char>| d != e.name@ implies find_state(ext, dd, d) == find_state(
            entries,
            dd,
            d,
        ) by {
            assert(find_state(ext.drop_first(), dd, d) == fresh_state(dd));
        }
    } else {
        assert(ext[0] == entries[0]);
        assert(ext.drop_first() =~= entries.drop_first().push(e));
        assert(entries[0].name@ != e.name@);
        assert(forall|k: int|
            0 <= k < entries.drop_first().len() ==> entries.drop_first()[k].name@ != e.name@);
        lemma_find_state_push(entries.drop_first(), dd, e);
        assert forall|d: Seq<char>| d != e.name@ implies find_state(ext, dd, d) == find_state(
            entries,
            dd,
            d,
        ) by {
            if entries[0].name@ != d {
                assert(find_state(ext.drop_first(), dd, d) == find_state(
                    entries.drop_first(),
                    dd,
                    d,
                ));
            }
        }
    }
}

proof fn lemma_find_robots_push(entries: Seq<RobotsEntry>, e: RobotsEntry)
    requires
        forall|k: int| 0 <= k < entries.len() ==> entries[k].domain@ != e.domain@,
    ensures
        find_robots(entries.push(e), e.domain@) == Some(e.text.deep_view()),
        forall|d: Seq<char>|
            d != e.domain@ ==> find_robots(entries.push(e), d) == find_robots(entries, d),
    decreases entries.len(),
{
    let ext = entries.push(e);
    if entries.len() == 0 {
        assert(ext[0] == e);
        assert(ext.drop_first() =~= Seq::<RobotsEntry>::empty());
        assert forall|d: Seq<char>| d != e.domain@ implies find_robots(ext, d) == find_robots(
            entries,
            d,
        ) by {
            assert(find_robots(ext.drop_first(), d) is None);
        }
    } else {
        assert(ext[0] == entries[0]);
        assert(ext.drop_first() =~= entries.drop_first().push(e));
        assert(entries[0].domain@ != e.domain@);
        assert(forall|k: int|
            0 <= k < entries.drop_first().len() ==> entries.drop_first()[k].domain@ != e.domain@);
        lemma_find_robots_push(entries.drop_first(), e);
        assert forall|d: Seq<char>| d != e.domain@ implies find_robots(ext, d) == find_robots(
            entries,
            d,
        ) by {
            if entries[0].domain@ != d {
                assert(find_robots(ext.drop_first(), d) == find_robots(entries.drop_first(), d));
            }
        }
    }
}

/// Per-domain politeness and robots policy, for every domain the crawl
/// touches. Domains are registered lazily; a domain nobody asked about yet
/// reads as a fresh state with the configured default interval.
pub struct PolitenessManager {
    user_agent: String,
    default_delay_ms: u64,
    domains: Vec<DomainEntry>,
    robots: Vec<RobotsEntry>,
}

impl PolitenessManager {
    /// The politeness state of a domain (fresh until first touched).
    pub closed spec fn domain_view(&self, name: Seq<char>) -> DomainState {
        find_state(self.domains@, self.default_delay_ms, name)
    }

    /// The cached robots policy of a domain: `None` until first fetched,
    /// `Some(None)` when the fetch failed, `Some(Some(text))` once fetched.
    pub closed spec fn robots_view(&self, domain: Seq<char>) -> Option<Option<Seq<char>>> {
        find_robots(self.robots@, domain)
    }

    /// The identifying user-agent all policy decisions are evaluated
    /// against.
    pub closed spec fn agent_view(&self) -> Seq<char> {
        self.user_agent@
    }

    /// The starting minimum interval for a domain not seen before.
    pub closed spec fn default_delay_view(&self) -> u64 {
        self.default_delay_ms
    }

    /// A manager for a fresh crawl run.
    pub fn new(config: &CrawlConfig) -> (r: PolitenessManager)
        ensures
            r.agent_view() == config.user_agent@,
            r.default_delay_view() == config.default_delay_ms,
            forall|d: Seq<char>| r.domain_view(d) == fresh_state(config.default_delay_ms),
            forall|d: Seq<char>| r.robots_view(d) is None,
    {
        PolitenessManager {
            user_agent: config.user_agent.clone(),
            default_delay_ms: config.default_delay_ms,
            domains: Vec::new(),
            robots: Vec::new(),
        }
    }

    /// Finds the domain entry, creating a fresh one if the domain was never
    /// touched; no view changes.
    fn ensure_domain(&mut self, domain: &str) -> (r: usize)
        ensures
            r < final(self).domains@.len(),
            final(self).domains@[r as int].name@ == domain@,
            forall|k: int| 0 <= k < r ==> final(self).domains@[k].name@ != domain@,
            final(self).domains@[r as int].state == old(self).domain_view(domain@),
            forall|d: Seq<char>| final(self).domain_view(d) == old(self).domain_view(d),
            final(self).robots == old(self).robots,
            final(self).user_agent == old(self).user_agent,
            final(self).default_delay_ms == old(self).default_delay_ms,
    {
        let n = self.domains.len();
        let mut j: usize = 0;
        proof {
            assert(self.domains@.skip(0) =~= self.domains@);
        }
        while j < n
            invariant
                j <= n,
                n == self.domains@.len(),
                forall|k: int| 0 <= k < j ==> self.domains@[k].name@ != domain@,
                find_state(self.domains@, self.default_delay_ms, domain@) == find_state(
                    self.domains@.skip(j as int),
                    self.default_delay_ms,
                    domain@,
                ),
            decreases n - j,
        {
            proof {
                assert(self.domains@.skip(j as int)[0] == self.domains@[j as int]);
            }
            if str_eq(self.domains[j].name.as_str(), domain) {
                return j;
            }
            proof {
                assert(self.domains@.skip(j as int).drop_first() =~= self.domains@.skip(j + 1));
            }
            j += 1;
        }
        proof {
            assert(self.domains@.skip(n as int) =~= Seq::<DomainEntry>::empty());
        }
        let entry = DomainEntry {
            name: domain.to_owned(),
            state: DomainState {
                last_access: None,
                delay_ms: self.default_delay_ms,
                in_flight: false,
            },
        };
        proof {
            lemma_find_state_push(self.domains@, self.default_delay_ms, entry);
        }
        self.domains.push(entry);
        n
    }

    /// Answers the robots policy for a URL against the identifying agent:
    /// a URL without a domain is never crawlable; a domain without a cached
    /// policy, or whose fetch failed, is crawlable on every path; otherwise
    /// the cached text decides. A cached empty text allows every path. The
    /// agent must be ASCII: the robots matcher cannot take a multi-byte
    /// one.
    pub fn can_crawl(&self, url: &CrawlUrl) -> (r: bool)
        requires
            is_ascii_chars(self.agent_view()),
        ensures
            r == (url@.host.len() > 0 && robots_decision(
                self.robots_view(url@.host),
                self.agent_view(),
                url@.path,
            )),
            ({
                &&& url@.host.len() > 0
                &&& self.robots_view(url@.host) matches Some(Some(t)) && t.len() == 0
            }) ==> r,
    {
        let host = url.host_str();
        if host.is_empty() {
            return false;
        }
        let n = self.robots.len();
        let mut j: usize = 0;
        proof {
            assert(self.robots@.skip(0) =~= self.robots@);
        }
        while j < n
            invariant
                j <= n,
                n == self.robots@.len(),
                url@.host.len() > 0,
                is_ascii_chars(self.agent_view()),
                find_robots(self.robots@, url@.host) == find_robots(
                    self.robots@.skip(j as int),
                    url@.host,
                ),
            decreases n - j,
        {
            proof {
                assert(self.robots@.skip(j as int)[0] == self.robots@[j as int]);
            }
            if str_eq(self.robots[j].domain.as_str(), url.host_str()) {
                proof {
                    assert(self.robots@[j as int].domain@ == url@.host);
                    assert(find_robots(self.robots@.skip(j as int), url@.host) == Some(
                        self.robots@[j as int].text.deep_view(),
                    ));
                }
                match &self.robots[j].text {
                    Some(text) => {
                        proof {
                            use_type_invariant(url);
                            lemma_url_path_ascii(*url);
                            assert(self.robots@[j as int].text.deep_view() == Some(text@));
                            assert(self.robots_view(url@.host) == Some(Some(text@)));
                            assert(url@.host.len() > 0);
                            assert(robots_decision(
                                self.robots_view(url@.host),
                                self.agent_view(),
                                url@.path,
                            ) == robots_allows(text@, self.user_agent@, url@.path));
                        }
                        let v = robots_verdict(
                            text.as_str(),
                            self.user_agent.as_str(),
                            url.path_str(),
                        );
                        proof {
                            assert(v == robots_allows(text@, self.user_agent@, url@.path));
                        }
                        return v;
                    }
                    None => {
                        proof {
                            assert(self.robots@[j as int].text.deep_view() == None::<Seq<char>>);
                            assert(self.robots_view(url@.host) == Some(None::<Seq<char>>));
                            assert(url@.host.len() > 0);
                            assert(robots_decision(
                                self.robots_view(url@.host),
                                self.agent_view(),
                                url@.path,
                            ));
                        }
                        return true;
                    }
                }
            }
            proof {
                assert(self.robots@.skip(j as int).drop_first() =~= self.robots@.skip(j + 1));
            }
            j += 1;
        }
        proof {
            assert(self.robots@.skip(n as int) =~= Seq::<RobotsEntry>::empty());
        }
        true
    }

    /// Whether the robots policy for a domain still has to be fetched.
    pub fn needs_robots(&self, domain: &str) -> (r: bool)
        ensures
            r == (self.robots_view(domain@) is None),
    {
        let n = self.robots.len();
        let mut j: usize = 0;
        proof {
            assert(self.robots@.skip(0) =~= self.robots@);
        }
        while j < n
            invariant
                j <= n,
                n == self.robots@.len(),
                find_robots(self.robots@, domain@) == find_robots(
                    self.robots@.skip(j as int),
                    domain@,
                ),
            decreases n - j,
        {
            proof {
                assert(self.robots@.skip(j as int)[0] == self.robots@[j as int]);
            }
            if str_eq(self.robots[j].domain.as_str(), domain) {
                return false;
            }
            proof {
                assert(self.robots@.skip(j as int).drop_first() =~= self.robots@.skip(j + 1));
            }
            j += 1;
        }
        proof {
            assert(self.robots@.skip(n as int) =~= Seq::<RobotsEntry>::empty());
        }
        true
    }

    /// Caches a fetched robots.txt body for a domain. A policy already
    /// cached never expires within the run, so a second call is a no-op.
    pub fn update_robots(&mut self, domain: String, content: &str)
        ensures
            old(self).robots_view(domain@) is Some ==> final(self).robots_view(domain@) == old(
                self,
            ).robots_view(domain@),
            old(self).robots_view(domain@) is None ==> final(self).robots_view(domain@) == Some(
                Some(content@),
            ),
            forall|d: Seq<char>|
                d != domain@ ==> final(self).robots_view(d) == old(self).robots_view(d),
            forall|d: Seq<char>| final(self).domain_view(d) == old(self).domain_view(d),
            final(self).agent_view() == old(self).agent_view(),
            final(self).default_delay_view() == old(self).default_delay_view(),
    {
        if self.needs_robots(domain.as_str()) {
            let entry = RobotsEntry { domain, text: Some(content.to_owned()) };
            proof {
                lemma_robots_absent_everywhere(self.robots@, entry.domain@);
                lemma_find_robots_push(self.robots@, entry);
            }
            self.robots.push(entry);
        }
    }

    /// Records that the robots.txt fetch for a domain failed: the domain is
    /// cached as default-allow for the rest of the run.
    pub fn mark_robots_failed(&mut self, domain: String)
        ensures
            old(self).robots_view(domain@) is Some ==> final(self).robots_view(domain@) == old(
                self,
            ).robots_view(domain@),
            old(self).robots_view(domain@) is None ==> final(self).robots_view(domain@) == Some(
                None::<Seq<char>>,
            ),
            forall|d: Seq<char>|
                d != domain@ ==> final(self).robots_view(d) == old(self).robots_view(d),
            forall|d: Seq<char>| final(self).domain_view(d) == old(self).domain_view(d),
            final(self).agent_view() == old(self).agent_view(),
            final(self).default_delay_view() == old(self).default_delay_view(),
    {
        if self.needs_robots(domain.as_str()) {
            let entry = RobotsEntry { domain, text: None };
            proof {
                lemma_robots_absent_everywhere(self.robots@, entry.domain@);
                lemma_find_robots_push(self.robots@, entry);
            }
            self.robots.push(entry);
        }
    }

    /// Admits a request to a domain at time `now`, or refuses. On `Some(w)`
    /// the caller must wait `w` milliseconds and then start the request:
    /// the domain's token is taken and its clock stamped with that start,
    /// an admissible `Begin` step of the domain state machine. `None` means
    /// the domain has a request in flight (or its interval has grown past
    /// any representable start time); nothing changes.
    pub fn wait_for_politeness(&mut self, domain: &str, now: u64) -> (r: Option<u64>)
        ensures
            r is Some <==> (!old(self).domain_view(domain@).in_flight && start_time(
                old(self).domain_view(domain@),
                now,
            ) <= u64::MAX),
            r matches Some(wait) ==> {
                &&& now + wait == start_time(old(self).domain_view(domain@), now)
                &&& domain_step_ok(
                    old(self).domain_view(domain@),
                    DomainEvent::Begin { at: (now + wait) as u64 },
                )
                &&& final(self).domain_view(domain@) == domain_step(
                    old(self).domain_view(domain@),
                    DomainEvent::Begin { at: (now + wait) as u64 },
                )
            },
            r is None ==> final(self).domain_view(domain@) == old(self).domain_view(domain@),
            forall|d: Seq<char>|
                d != domain@ ==> final(self).domain_view(d) == old(self).domain_view(d),
            forall|d: Seq<char>| final(self).robots_view(d) == old(self).robots_view(d),
            final(self).agent_view() == old(self).agent_view(),
            final(self).default_delay_view() == old(self).default_delay_view(),
    {
        let idx = self.ensure_domain(domain);
        let s = self.domains[idx].state;
        if s.in_flight {
            return None;
        }
        let wait: u64 = match s.last_access {
            None => 0,
            Some(last) => {
                if last > u64::MAX - s.delay_ms {
                    return None;
                }
                let ready = last + s.delay_ms;
                if ready > now {
                    ready - now
                } else {
                    0
                }
            }
        };
        let start = now + wait;
        let ghost entries = self.domains@;
        let new_state = DomainState {
            last_access: Some(start),
            delay_ms: s.delay_ms,
            in_flight: true,
        };
        self.domains[idx].state = new_state;
        proof {
            let e = self.domains@[idx as int];
            assert(self.domains@ =~= entries.update(idx as int, e));
            lemma_find_state_update(entries, self.default_delay_ms, idx as int, e, domain@);
        }
        Some(wait)
    }

    /// Doubles a domain's minimum interval on a rate-limit signal — the
    /// `RateLimit` step of the domain state machine. The interval never
    /// shrinks within a run.
    pub fn report_rate_limited(&mut self, domain: &str)
        ensures
            final(self).domain_view(domain@) == domain_step(
                old(self).domain_view(domain@),
                DomainEvent::RateLimit,
            ),
            forall|d: Seq<char>|
                d != domain@ ==> final(self).domain_view(d) == old(self).domain_view(d),
            forall|d: Seq<char>| final(self).robots_view(d) == old(self).robots_view(d),
            final(self).agent_view() == old(self).agent_view(),
            final(self).default_delay_view() == old(self).default_delay_view(),
    {
        let idx = self.ensure_domain(domain);
        let s = self.domains[idx].state;
        let ghost entries = self.domains@;
        let new_state = DomainState {
            last_access: s.last_access,
            delay_ms: double_delay(s.delay_ms),
            in_flight: s.in_flight,
        };
        self.domains[idx].state = new_state;
        proof {
            let e = self.domains@[idx as int];
            assert(self.domains@ =~= entries.update(idx as int, e));
            lemma_find_state_update(entries, self.default_delay_ms, idx as int, e, domain@);
        }
    }

    /// Releases a domain's token when its request completes — the `Finish`
    /// step of the domain state machine.
    pub fn finish_request(&mut self, domain: &str)
        ensures
            final(self).domain_view(domain@) == domain_step(
                old(self).domain_view(domain@),
                DomainEvent::Finish,
            ),
            forall|d: Seq<char>|
                d != domain@ ==> final(self).domain_view(d) == old(self).domain_view(d),
            forall|d: Seq<char>| final(self).robots_view(d) == old(self).robots_view(d),
            final(self).agent_view() == old(self).agent_view(),
            final(self).default_delay_view() == old(self).default_delay_view(),
    {
        let idx = self.ensure_domain(domain);
        let s = self.domains[idx].state;
        let ghost entries = self.domains@;
        let new_state = DomainState {
            last_access: s.last_access,
            delay_ms: s.delay_ms,
            in_flight: false,
        };
        self.domains[idx].state = new_state;
        proof {
            let e = self.domains@[idx as int];
            assert(self.domains@ =~= entries.update(idx as int, e));
            lemma_find_state_update(entries, self.default_delay_ms, idx as int, e, domain@);
        }
    }

    /// Reads a domain's politeness state.
    pub fn domain_state(&self, domain: &str) -> (r: DomainState)
        ensures
            r == self.domain_view(domain@),
    {
        let n = self.domains.len();
        let mut j: usize = 0;
        proof {
            assert(self.domains@.skip(0) =~= self.domains@);
        }
        while j < n
            invariant
                j <= n,
                n == self.domains@.len(),
                find_state(self.domains@, self.default_delay_ms, domain@) == find_state(
                    self.domains@.skip(j as int),
                    self.default_delay_ms,
                    domain@,
                ),
            decreases n - j,
        {
            proof {
                assert(self.domains@.skip(j as int)[0] == self.domains@[j as int]);
            }
            if str_eq(self.domains[j].name.as_str(), domain) {
                return self.domains[j].state;
            }
            proof {
                assert(self.domains@.skip(j as int).drop_first() =~= self.domains@.skip(j + 1));
            }
            j += 1;
        }
        proof {
            assert(self.domains@.skip(n as int) =~= Seq::<DomainEntry>::empty());
        }
        DomainState { last_access: None, delay_ms: self.default_delay_ms, in_flight: false }
    }
}

/// If a domain is absent from the robots cache as a whole, it is absent at
/// every position.
proof fn lemma_robots_absent_everywhere(entries: Seq<RobotsEntry>, domain: Seq<char>)
    requires
        find_robots(entries, domain) is None,
    ensures
        forall|k: int| 0 <= k < entries.len() ==> entries[k].domain@ != domain,
    decreases entries.len(),
{
    if entries.len() > 0 {
        lemma_robots_absent_everywhere(entries.drop_first(), domain);
        assert forall|k: int| 0 <= k < entries.len() implies entries[k].domain@ != domain by {
            if k > 0 {
                assert(entries.drop_first()[k - 1] == entries[k]);
            }
        }
    }
}

} // verus!
