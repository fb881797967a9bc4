use rust_issue_stats::fetch::OpenedAndClosedIssues;
use rust_issue_stats::models::PreviousPageInfo;
use std::collections::HashMap;

use rust_issue_stats::fetch::{
    PageAction, PageSource, PageSummary, PagedFetcher, StopReason,
};
use rust_issue_stats::models::NextPageInfo;

fn page(has_next: bool, cursor: Option<&str>) -> PageSummary {
    PageSummary {
        has_errors: false,
        page_info: NextPageInfo {
            end_cursor: cursor.map(|c| c.to_string()),
            has_next_page: has_next,
        },
    }
}

fn errors() -> PageSummary {
    PageSummary {
        has_errors: true,
        page_info: NextPageInfo { end_cursor: None, has_next_page: false },
    }
}

#[test]
fn first_request_has_no_cursor() {
    let f = PagedFetcher::new(10, 2);
    let r = f.next_request().unwrap();
    assert_eq!(r.page_size, 10);
    assert_eq!(r.page_index, 0);
    assert_eq!(r.after, None);
    assert_eq!(f.stop_reason(), None);
}

#[test]
fn cursor_moves_to_end_of_page() {
    let mut f = PagedFetcher::new(10, 3);
    let a = f.complete_page(PageSource::Network, &page(true, Some("c1")));
    assert_eq!(a, PageAction::PersistAndAnalyze);
    let r = f.next_request().unwrap();
    assert_eq!(r.page_index, 1);
    assert_eq!(r.after, Some("c1".to_string()));
    let a = f.complete_page(PageSource::Cache, &page(true, Some("c2")));
    assert_eq!(a, PageAction::Analyze);
    assert_eq!(f.next_request().unwrap().after, Some("c2".to_string()));
}

#[test]
fn stops_at_page_limit() {
    let mut f = PagedFetcher::new(10, 1);
    f.complete_page(PageSource::Network, &page(true, Some("c1")));
    assert!(f.next_request().is_none());
    assert_eq!(f.stop_reason(), Some(StopReason::PageLimit));
    let f = PagedFetcher::new(10, 0);
    assert!(f.next_request().is_none());
}

#[test]
fn stops_on_last_page() {
    let mut f = PagedFetcher::new(10, 5);
    let a = f.complete_page(PageSource::Network, &page(false, Some("c1")));
    assert_eq!(a, PageAction::PersistAndAnalyze);
    assert!(f.next_request().is_none());
    assert_eq!(f.stop_reason(), Some(StopReason::LastPage));
}

#[test]
fn server_errors_stop_without_storing() {
    let mut f = PagedFetcher::new(10, 5);
    f.complete_page(PageSource::Network, &page(true, Some("c1")));
    let a = f.complete_page(PageSource::Network, &errors());
    assert_eq!(a, PageAction::Discard);
    assert!(f.next_request().is_none());
    assert_eq!(f.stop_reason(), Some(StopReason::ServerErrors));
}

/// Drives a whole fetch against an in-memory cache and a fake server with
/// `pages` pages; returns the number of requests and the pages counted.
fn run(cache: &mut HashMap<usize, PageSummary>, pages: usize, max_pages: usize) -> (usize, Vec<usize>) {
    let mut f = PagedFetcher::new(10, max_pages);
    let mut requests = 0;
    let mut counted = Vec::new();
    while let Some(req) = f.next_request() {
        let k = req.page_index;
        let (source, p) = match cache.get(&k) {
            Some(p) => (PageSource::Cache, p.clone()),
            None => {
                requests += 1;
                let expected = if k == 0 { None } else { Some(format!("c{}", k)) };
                assert_eq!(req.after, expected);
                (PageSource::Network, page(k + 1 < pages, Some(&format!("c{}", k + 1))))
            }
        };
        match f.complete_page(source, &p) {
            PageAction::PersistAndAnalyze => {
                cache.insert(k, p);
                counted.push(k);
            }
            PageAction::Analyze => counted.push(k),
            PageAction::Discard => break,
        }
    }
    (requests, counted)
}

#[test]
fn second_run_makes_no_requests() {
    let mut cache = HashMap::new();
    let (n1, first) = run(&mut cache, 3, 5);
    assert_eq!(n1, 3);
    assert_eq!(first, vec![0, 1, 2]);
    let (n2, second) = run(&mut cache, 3, 5);
    assert_eq!(n2, 0);
    assert_eq!(second, first);
    assert_eq!(cache.len(), 3);
}

#[test]
fn second_run_with_page_limit_makes_no_requests() {
    let mut cache = HashMap::new();
    let (n1, first) = run(&mut cache, 10, 2);
    assert_eq!(n1, 2);
    let (n2, second) = run(&mut cache, 10, 2);
    assert_eq!(n2, 0);
    assert_eq!(second, first);
}

#[test]
fn variables_follow_the_request() {
    let mut f = PagedFetcher::new(25, 3);
    f.complete_page(PageSource::Network, &page(true, Some("abc")));
    let req = f.next_request().unwrap();
    let v = OpenedAndClosedIssues::variables("rust-lang", "rust", &req);
    assert_eq!(v.repository_owner, "rust-lang");
    assert_eq!(v.repository_name, "rust");
    assert_eq!(v.page_size, 25);
    assert_eq!(v.after, Some("abc".to_string()));
}

#[test]
fn backward_pages_follow_start_cursor() {
    let info = PreviousPageInfo { has_previous_page: true, start_cursor: Some("s1".to_string()) };
    let next = info.backward();
    assert!(next.has_next_page);
    assert_eq!(next.end_cursor, Some("s1".to_string()));
    let mut f = PagedFetcher::new(10, 3);
    f.complete_page(PageSource::Network, &PageSummary { has_errors: false, page_info: next });
    assert_eq!(f.next_request().unwrap().after, Some("s1".to_string()));
    let last = PreviousPageInfo { has_previous_page: false, start_cursor: None }.backward();
    assert!(!last.has_next_page);
}
