//! The URL frontier: a FIFO work queue of (url, depth) entries together
//! with the set of URLs ever admitted. A URL is admitted at most once over
//! the crawl's lifetime (insertion-time dedup); entries beyond the optional
//! depth bound are dropped silently at admission time.

use vstd::prelude::*;

verus! {

use std::collections::VecDeque;
use crate::strutil::str_eq;
use crate::urlutil::{CrawlUrl, UrlParts};

/// One unit of pending work: a normalized URL and the depth at which it was
/// discovered.
pub struct FrontierEntry {
    pub url: CrawlUrl,
    pub depth: usize,
}

/// The mathematical image of a frontier entry.
pub struct FrontierEntryModel {
    pub url: UrlParts,
    pub depth: usize,
}

impl View for FrontierEntry {
    type V = FrontierEntryModel;

    open spec fn view(&self) -> FrontierEntryModel {
        FrontierEntryModel { url: self.url@, depth: self.depth }
    }
}

/// The mathematical image of the whole frontier: the pending queue in FIFO
/// order, the set of full URL strings ever admitted, and the depth bound.
pub struct FrontierModel {
    pub queue: Seq<FrontierEntryModel>,
    pub seen: Seq<Seq<char>>,
    pub max_depth: Option<usize>,
}

/// Well-formedness: no URL is queued twice, and everything queued has been
/// admitted to `seen`.
pub open spec fn frontier_wf(m: FrontierModel) -> bool {
    &&& forall|i: int, j: int|
        0 <= i < j < m.queue.len() ==> m.queue[i].url.full != m.queue[j].url.full
    &&& forall|i: int| 0 <= i < m.queue.len() ==> m.seen.contains(#[trigger] m.queue[i].url.full)
}

/// What admitting one URL at one depth does: a no-op when the depth exceeds
/// the bound or the URL was admitted before; otherwise the URL joins both
/// `seen` and the back of the queue, atomically.
pub open spec fn frontier_add(m: FrontierModel, u: UrlParts, depth: usize) -> FrontierModel {
    if m.max_depth matches Some(d) && depth > d {
        m
    } else if m.seen.contains(u.full) {
        m
    } else {
        FrontierModel {
            queue: m.queue.push(FrontierEntryModel { url: u, depth }),
            seen: m.seen.push(u.full),
            max_depth: m.max_depth,
        }
    }
}

/// Admitting a batch, in order.
pub open spec fn frontier_add_all(m: FrontierModel, us: Seq<UrlParts>, depth: usize) -> FrontierModel
    decreases us.len(),
{
    if us.len() == 0 {
        m
    } else {
        frontier_add(frontier_add_all(m, us.drop_last(), depth), us.last(), depth)
    }
}

/// The crawl's work queue plus its membership-dedup set.
pub struct URLFrontier {
    queue: VecDeque<FrontierEntry>,
    seen: Vec<String>,
    max_depth: Option<usize>,
}

impl View for URLFrontier {
    type V = FrontierModel;

    closed spec fn view(&self) -> FrontierModel {
        FrontierModel {
            queue: self.queue@.map_values(|e: FrontierEntry| e@),
            seen: self.seen.deep_view(),
            max_depth: self.max_depth,
        }
    }
}

impl URLFrontier {
    /// An empty frontier without a depth bound.
    pub fn new() -> (r: URLFrontier)
        ensures
            r@.queue.len() == 0,
            r@.seen.len() == 0,
            r@.max_depth is None,
            frontier_wf(r@),
    {
        URLFrontier { queue: VecDeque::new(), seen: Vec::new(), max_depth: None }
    }

    /// An empty frontier that silently drops entries deeper than `d`.
    pub fn with_max_depth(d: usize) -> (r: URLFrontier)
        ensures
            r@.queue.len() == 0,
            r@.seen.len() == 0,
            r@.max_depth == Some(d),
            frontier_wf(r@),
    {
        URLFrontier { queue: VecDeque::new(), seen: Vec::new(), max_depth: Some(d) }
    }

    /// Whether this URL was ever admitted.
    pub fn has_seen(&self, url: &CrawlUrl) -> (r: bool)
        ensures
            r == self@.seen.contains(url@.full),
    {
        let mut i: usize = 0;
        while i < self.seen.len()
            invariant
                i <= self.seen@.len(),
                self@.seen.len() == self.seen@.len(),
                forall|j: int| 0 <= j < i ==> self@.seen[j] != url@.full,
            decreases self.seen@.len() - i,
        {
            if str_eq(self.seen[i].as_str(), url.full_str()) {
                proof {
                    assert(self@.seen[i as int] == url@.full);
                }
                return true;
            }
            i += 1;
        }
        proof {
            if self@.seen.contains(url@.full) {
                let j = choose|j: int| 0 <= j < self@.seen.len() && self@.seen[j] == url@.full;
                assert(false);
            }
        }
        false
    }

    /// Admits one URL at one depth: a no-op if the URL was admitted before
    /// or the depth exceeds the bound; otherwise `seen` and the queue grow
    /// together.
    pub fn add_url(&mut self, url: CrawlUrl, depth: usize)
        requires
            frontier_wf(old(self)@),
        ensures
            final(self)@ == frontier_add(old(self)@, url@, depth),
            frontier_wf(final(self)@),
    {
        if let Some(d) = self.max_depth {
            if depth > d {
                return;
            }
        }
        if self.has_seen(&url) {
            return;
        }
        let ghost old_model = self@;
        let ghost u = url@;
        self.seen.push(url.full_str().to_owned());
        self.queue.push_back(FrontierEntry { url, depth });
        proof {
            assert(self@.seen =~= old_model.seen.push(u.full));
            assert(self@.queue =~= old_model.queue.push(
                FrontierEntryModel { url: u, depth },
            ));
            assert forall|x: Seq<char>| old_model.seen.contains(x) implies self@.seen.contains(
                x,
            ) by {
                let j = choose|j: int|
                    0 <= j < old_model.seen.len() && old_model.seen[j] == x;
                assert(self@.seen[j] == x);
            }
            assert forall|i: int|
                0 <= i < self@.queue.len() implies self@.seen.contains(
                #[trigger] self@.queue[i].url.full,
            ) by {
                if i < old_model.queue.len() {
                    assert(old_model.seen.contains(old_model.queue[i].url.full));
                } else {
                    assert(self@.seen[self@.seen.len() - 1] == u.full);
                }
            }
            assert forall|i: int, j: int|
                0 <= i < j < self@.queue.len() implies self@.queue[i].url.full
                != self@.queue[j].url.full by {
                if j == self@.queue.len() - 1 {
                    assert(old_model.seen.contains(old_model.queue[i].url.full));
                }
            }
        }
    }

    /// Admits a batch of discovered links, all at one depth, under one
    /// critical section relative to concurrent readers.
    pub fn add_urls(&mut self, urls: &Vec<CrawlUrl>, depth: usize)
        requires
            frontier_wf(old(self)@),
        ensures
            final(self)@ == frontier_add_all(old(self)@, urls.deep_view(), depth),
            frontier_wf(final(self)@),
    {
        let ghost old_model = self@;
        let mut i: usize = 0;
        while i < urls.len()
            invariant
                i <= urls@.len(),
                urls.deep_view().len() == urls@.len(),
                frontier_wf(self@),
                self@ == frontier_add_all(old_model, urls.deep_view().take(i as int), depth),
            decreases urls@.len() - i,
        {
            proof {
                assert(urls.deep_view().take(i + 1).drop_last() =~= urls.deep_view().take(
                    i as int,
                ));
                assert(urls.deep_view().take(i + 1).last() == urls.deep_view()[i as int]);
            }
            self.add_url(urls[i].clone_url(), depth);
            i += 1;
        }
        proof {
            assert(urls.deep_view().take(urls@.len() as int) =~= urls.deep_view());
        }
    }

    /// Pops and returns the front of the queue, or `None` when the queue is
    /// empty. `seen` is untouched either way, so a drained URL can never be
    /// admitted again.
    pub fn next_url(&mut self) -> (r: Option<FrontierEntry>)
        requires
            frontier_wf(old(self)@),
        ensures
            frontier_wf(final(self)@),
            final(self)@.seen == old(self)@.seen,
            final(self)@.max_depth == old(self)@.max_depth,
            match r {
                Some(e) => old(self)@.queue.len() > 0 && e@ == old(self)@.queue[0]
                    && final(self)@.queue == old(self)@.queue.drop_first(),
                None => old(self)@.queue.len() == 0 && final(self)@.queue == old(self)@.queue,
            },
    {
        let r = self.queue.pop_front();
        proof {
            if old(self)@.queue.len() > 0 {
                assert(self@.queue =~= old(self)@.queue.drop_first());
            } else {
                assert(self@.queue =~= old(self)@.queue);
            }
        }
        match r {
            Some(e) => Some(e),
            None => None,
        }
    }

    /// How many entries are pending.
    pub fn queue_len(&self) -> (r: usize)
        ensures
            r == self@.queue.len(),
    {
        self.queue.len()
    }
}

/// Frontier dedup: in a well-formed frontier each distinct normalized URL
/// occupies at most one queue slot, so — `seen` never shrinking and
/// admission of a seen URL being a no-op — each URL is drained at most once
/// over the crawl's lifetime, regardless of duplicate insertions.
pub proof fn lemma_frontier_dedup(m: FrontierModel, i: int, j: int)
    requires
        frontier_wf(m),
        0 <= i < j < m.queue.len(),
    ensures
        m.queue[i].url.full != m.queue[j].url.full,
{
}

/// Re-admission is a no-op: adding a URL that was admitted before changes
/// nothing, whatever its depth.
pub proof fn lemma_frontier_readd_noop(m: FrontierModel, u: UrlParts, depth: usize)
    requires
        m.seen.contains(u.full),
    ensures
        frontier_add(m, u, depth) == m,
{
}

} // verus!
