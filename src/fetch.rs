//! The decisions of a paginated fetch that keeps every page in a local cache, and
//! what a whole fetch does against such a cache.

use vstd::prelude::*;
use crate::aggregate::{add_records, issue_records};
use crate::issue::IssueNode;
use crate::models::NextPageInfo;
use crate::time::{Period, PeriodStrategy};

verus! {

/// The query for the issues of a repository, opened and closed, a page at a
/// time. It is sent with `Variables`.
#[derive(Debug, Clone, Copy, PartialEq, Eq, Structural)]
pub struct OpenedAndClosedIssues;

/// The variables of one request of `OpenedAndClosedIssues`.
#[derive(Debug, Clone)]
pub struct Variables {
    pub repository_owner: String,
    pub repository_name: String,
    pub page_size: i64,
    /// The cursor after which the page starts; none for the first page.
    pub after: Option<String>,
}

/// Where a page came from.
#[derive(Debug, Clone, Copy, PartialEq, Eq, Structural)]
pub enum PageSource {
    /// The local cache: no request was made.
    Cache,
    /// The remote endpoint: one request was made.
    Network,
}

/// Why a fetch ended.
#[derive(Debug, Clone, Copy, PartialEq, Eq, Structural)]
pub enum StopReason {
    /// As many pages as asked for were handled.
    PageLimit,
    /// The server reported that no page follows the last one.
    LastPage,
    /// The server reported errors for a page.
    ServerErrors,
}

/// What to do with a page that came in.
#[derive(Debug, Clone, Copy, PartialEq, Eq, Structural)]
pub enum PageAction {
    /// Count its issues.
    Analyze,
    /// Store it in the cache first, then count its issues.
    PersistAndAnalyze,
    /// Neither store nor count it: the fetch has stopped on it.
    Discard,
}

/// A page to obtain: the `page_index`-th page of `page_size` issues, which
/// starts after the cursor `after`. The cache keeps it under
/// (`page_size`, `page_index`).
#[derive(Debug, Clone)]
pub struct PageRequest {
    pub page_size: i64,
    pub page_index: usize,
    pub after: Option<String>,
}

/// What the fetch reads of a page that came in.
#[derive(Debug, Clone)]
pub struct PageSummary {
    /// The response carried errors reported by the server.
    pub has_errors: bool,
    pub page_info: NextPageInfo,
}

/// The decisions of a paginated fetch that consults a cache before each
/// request. The caller asks for the next request, obtains the page from the
/// cache or the network, and hands its summary back.
#[derive(Debug, Clone)]
pub struct PagedFetcher {
    pub page_size: i64,
    /// How many pages to handle at most.
    pub max_pages: usize,
    /// The index of the next page, counted from zero.
    pub next_page: usize,
    /// The cursor the next page starts after.
    pub after: Option<String>,
    /// Set once the fetch ended otherwise than by the page limit.
    pub stopped: Option<StopReason>,
}

/// A fetch of at most `max_pages` pages of `page_size` issues, from the start.
pub open spec fn initial_fetcher(page_size: i64, max_pages: usize) -> PagedFetcher {
    PagedFetcher { page_size, max_pages, next_page: 0, after: None, stopped: None }
}

/// Why the fetch has ended, if it has.
pub open spec fn stop_reason(f: PagedFetcher) -> Option<StopReason> {
    if f.stopped is Some {
        f.stopped
    } else if f.next_page >= f.max_pages {
        Some(StopReason::PageLimit)
    } else {
        None
    }
}

/// The page to obtain next, unless the fetch has ended.
pub open spec fn requested_page(f: PagedFetcher) -> Option<PageRequest> {
    if stop_reason(f) is Some {
        None
    } else {
        Some(PageRequest { page_size: f.page_size, page_index: f.next_page, after: f.after })
    }
}

/// What to do with `page`, which came from `source`. A page with errors is
/// never stored nor counted; a page from the network is stored before it is
/// counted.
pub open spec fn page_action(source: PageSource, page: PageSummary) -> PageAction {
    if page.has_errors {
        PageAction::Discard
    } else if source == PageSource::Network {
        PageAction::PersistAndAnalyze
    } else {
        PageAction::Analyze
    }
}

/// The fetch after `page` came in: it stops on errors and on the last page,
/// and otherwise moves to the next page, after the page's end cursor.
pub open spec fn after_page(f: PagedFetcher, page: PageSummary) -> PagedFetcher {
    if page.has_errors {
        PagedFetcher {
            page_size: f.page_size,
            max_pages: f.max_pages,
            next_page: f.next_page,
            after: f.after,
            stopped: Some(StopReason::ServerErrors),
        }
    } else if page.page_info.has_next_page {
        PagedFetcher {
            page_size: f.page_size,
            max_pages: f.max_pages,
            next_page: (f.next_page + 1) as usize,
            after: page.page_info.end_cursor,
            stopped: None,
        }
    } else {
        PagedFetcher {
            page_size: f.page_size,
            max_pages: f.max_pages,
            next_page: (f.next_page + 1) as usize,
            after: f.after,
            stopped: Some(StopReason::LastPage),
        }
    }
}

fn copy_cursor(c: &Option<String>) -> (r: Option<String>)
    ensures
        r == *c,
{
    match c {
        Some(s) => Some(s.clone()),
        None => None,
    }
}

impl OpenedAndClosedIssues {
    /// The variables that ask the repository `owner`/`name` for the page of
    /// `request`.
    pub fn variables(owner: &str, name: &str, request: &PageRequest) -> (r: Variables)
        ensures
            r.repository_owner@ == owner@,
            r.repository_name@ == name@,
            r.page_size == request.page_size,
            r.after == request.after,
    {
        Variables {
            repository_owner: owner.to_owned(),
            repository_name: name.to_owned(),
            page_size: request.page_size,
            after: copy_cursor(&request.after),
        }
    }
}

impl PagedFetcher {
    /// A fetch of at most `max_pages` pages of `page_size` issues, from the start.
    pub fn new(page_size: i64, max_pages: usize) -> (r: PagedFetcher)
        ensures
            r == initial_fetcher(page_size, max_pages),
    {
        PagedFetcher { page_size, max_pages, next_page: 0, after: None, stopped: None }
    }

    /// Why the fetch has ended, if it has.
    pub fn stop_reason(&self) -> (r: Option<StopReason>)
        ensures
            r == stop_reason(*self),
    {
        if self.stopped.is_some() {
            self.stopped
        } else if self.next_page >= self.max_pages {
            Some(StopReason::PageLimit)
        } else {
            None
        }
    }

    /// The page to obtain next; `None` once the fetch has ended.
    pub fn next_request(&self) -> (r: Option<PageRequest>)
        ensures
            r == requested_page(*self),
    {
        if self.stop_reason().is_some() {
            None
        } else {
            Some(
                PageRequest {
                    page_size: self.page_size,
                    page_index: self.next_page,
                    after: copy_cursor(&self.after),
                },
            )
        }
    }

    /// Takes in the page last requested, which came from `source`, and says
    /// what to do with it.
    pub fn complete_page(&mut self, source: PageSource, page: &PageSummary) -> (r: PageAction)
        requires
            requested_page(*old(self)) is Some,
        ensures
            r == page_action(source, *page),
            *final(self) == after_page(*old(self), *page),
    {
        if page.has_errors {
            self.stopped = Some(StopReason::ServerErrors);
            PageAction::Discard
        } else {
            self.next_page = self.next_page + 1;
            if page.page_info.has_next_page {
                self.after = copy_cursor(&page.page_info.end_cursor);
            } else {
                self.stopped = Some(StopReason::LastPage);
            }
            if source == PageSource::Network {
                PageAction::PersistAndAnalyze
            } else {
                PageAction::Analyze
            }
        }
    }
}

/// Decreases with each page a fetch takes in.
pub open spec fn pages_left(f: PagedFetcher) -> int {
    if f.stopped is Some {
        0
    } else if f.next_page >= f.max_pages {
        0
    } else {
        f.max_pages - f.next_page + 1
    }
}

/// A whole fetch from state `f`, against a cache that maps the indices of
/// pages of `f.page_size` issues to stored pages and a network that answers each request with a page;
/// `summary` gives what the fetch reads of a page. The result holds the cache
/// at the end, the number of requests made, the pages counted in order, and
/// the final state.
pub open spec fn run<P>(
    f: PagedFetcher,
    cache: Map<int, P>,
    network: spec_fn(PageRequest) -> P,
    summary: spec_fn(P) -> PageSummary,
) -> (Map<int, P>, nat, Seq<P>, PagedFetcher)
    decreases pages_left(f),
{
    match requested_page(f) {
        None => (cache, 0, Seq::empty(), f),
        Some(req) => {
            let k = req.page_index as int;
            let source = if cache.contains_key(k) {
                PageSource::Cache
            } else {
                PageSource::Network
            };
            let page = if cache.contains_key(k) {
                cache[k]
            } else {
                network(req)
            };
            let s = summary(page);
            let action = page_action(source, s);
            let stored = if action == PageAction::PersistAndAnalyze {
                cache.insert(k, page)
            } else {
                cache
            };
            let rest = run(after_page(f, s), stored, network, summary);
            let requests: nat = if source == PageSource::Network {
                1
            } else {
                0
            };
            let counted = if action == PageAction::Discard {
                rest.2
            } else {
                seq![page] + rest.2
            };
            (rest.0, rest.1 + requests, counted, rest.3)
        },
    }
}

/// A fetch only adds pages to the cache: what was stored stays as it was.
pub proof fn lemma_run_keeps_cache<P>(
    f: PagedFetcher,
    cache: Map<int, P>,
    network: spec_fn(PageRequest) -> P,
    summary: spec_fn(P) -> PageSummary,
)
    ensures
        forall|k: int|
            #[trigger] cache.contains_key(k) ==> run(f, cache, network, summary).0.contains_key(k)
                && run(f, cache, network, summary).0[k] == cache[k],
    decreases pages_left(f),
{
    match requested_page(f) {
        None => {},
        Some(req) => {
            let k = req.page_index as int;
            let page = if cache.contains_key(k) {
                cache[k]
            } else {
                network(req)
            };
            let source = if cache.contains_key(k) {
                PageSource::Cache
            } else {
                PageSource::Network
            };
            let s = summary(page);
            let stored = if page_action(source, s) == PageAction::PersistAndAnalyze {
                cache.insert(k, page)
            } else {
                cache
            };
            let next = after_page(f, s);
            lemma_run_keeps_cache(next, stored, network, summary);
            assert(run(f, cache, network, summary).0 == run(next, stored, network, summary).0);
            assert forall|j: int| #[trigger] cache.contains_key(j) implies stored.contains_key(j)
                && stored[j] == cache[j] by {}
        },
    }
}

/// Running a fetch a second time, from the same state and against the cache
/// the first run left, makes no request, leaves the cache as it was, counts
/// the same pages in the same order (so the statistics drawn from them are the
/// same), and ends in the same state; whatever the network would answer.
/// This holds unless the first run stopped on a page with server errors,
/// which is never stored.
pub proof fn lemma_second_run_uses_cache<P>(
    f: PagedFetcher,
    cache: Map<int, P>,
    network: spec_fn(PageRequest) -> P,
    second_network: spec_fn(PageRequest) -> P,
    summary: spec_fn(P) -> PageSummary,
)
    requires
        run(f, cache, network, summary).3.stopped != Some(StopReason::ServerErrors),
    ensures
        run(f, run(f, cache, network, summary).0, second_network, summary) == (
            run(f, cache, network, summary).0,
            0nat,
            run(f, cache, network, summary).2,
            run(f, cache, network, summary).3,
        ),
    decreases pages_left(f),
{
    match requested_page(f) {
        None => {},
        Some(req) => {
            let k = req.page_index as int;
            let page = if cache.contains_key(k) {
                cache[k]
            } else {
                network(req)
            };
            let source = if cache.contains_key(k) {
                PageSource::Cache
            } else {
                PageSource::Network
            };
            let s = summary(page);
            let stored = if page_action(source, s) == PageAction::PersistAndAnalyze {
                cache.insert(k, page)
            } else {
                cache
            };
            let next = after_page(f, s);
            let first = run(f, cache, network, summary);
            if s.has_errors {
                assert(requested_page(next) is None);
                assert(run(next, stored, network, summary).3 == next);
                assert(first.3 == next);
            } else {
                assert(stored.contains_key(k) && stored[k] == page);
                lemma_run_keeps_cache(next, stored, network, summary);
                assert(first.0.contains_key(k) && first.0[k] == page);
                lemma_second_run_uses_cache(next, stored, network, second_network, summary);
            }
        },
    }
}


/// The counts after the issues of each page, in order, were recorded into
/// `m` by `PlotData::analyze_issues`; `issues_of` gives the issues of a page.
pub open spec fn add_pages<P>(
    m: Map<Period, Seq<int>>,
    pages: Seq<P>,
    issues_of: spec_fn(P) -> Seq<IssueNode>,
    strategy: PeriodStrategy,
) -> Map<Period, Seq<int>>
    decreases pages.len(),
{
    if pages.len() == 0 {
        m
    } else {
        add_records(
            add_pages(m, pages.drop_last(), issues_of, strategy),
            issue_records(issues_of(pages.last()), strategy),
        )
    }
}

/// A second fetch against the cache the first one left gives the same
/// statistics: it makes no request, and the counts drawn from the pages it
/// counts equal those drawn from the pages the first fetch counted, from any
/// starting counts and under any strategy. This holds unless the first fetch
/// stopped on a page with server errors.
pub proof fn lemma_second_run_same_counts<P>(
    f: PagedFetcher,
    cache: Map<int, P>,
    network: spec_fn(PageRequest) -> P,
    second_network: spec_fn(PageRequest) -> P,
    summary: spec_fn(P) -> PageSummary,
    issues_of: spec_fn(P) -> Seq<IssueNode>,
    m: Map<Period, Seq<int>>,
    strategy: PeriodStrategy,
)
    requires
        run(f, cache, network, summary).3.stopped != Some(StopReason::ServerErrors),
    ensures
        run(f, run(f, cache, network, summary).0, second_network, summary).1 == 0,
        add_pages(
            m,
            run(f, run(f, cache, network, summary).0, second_network, summary).2,
            issues_of,
            strategy,
        ) == add_pages(m, run(f, cache, network, summary).2, issues_of, strategy),
{
    lemma_second_run_uses_cache(f, cache, network, second_network, summary);
}

} // verus!
