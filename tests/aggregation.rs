use rust_issue_stats::aggregate::{Counter, Counters, PeriodData, PlotData};
use rust_issue_stats::category::IssueCategory;
use rust_issue_stats::issue::{AnalysisError, IssueNode, IssueState};
use rust_issue_stats::models::{Label, Labels};
use rust_issue_stats::time::{Period, PeriodStrategy, Timestamp, WEEK_SECONDS};

fn month(year: i32, month: u32) -> Period {
    Period::Month { year, month }
}

fn secs(s: i64) -> Timestamp {
    Timestamp::from_unix_seconds(s).unwrap()
}

fn issue(labels: &[&str], created: i64, closed: Option<i64>, state: IssueState) -> IssueNode {
    IssueNode {
        url: "https://github.com/rust-lang/rust/issues/1".to_string(),
        labels: Labels {
            nodes: labels.iter().map(|n| Label { name: n.to_string() }).collect(),
        },
        created_at: secs(created),
        closed_at: closed.map(secs),
        state,
    }
}

#[test]
fn counters_start_at_zero_and_count_up() {
    let mut c = Counters::default();
    assert_eq!(c.get(Counter::Opened), 0);
    assert_eq!(c.get(Counter::Closed), 0);
    c.increment(Counter::Closed);
    c.increment(Counter::Closed);
    assert_eq!(c.get(Counter::Opened), 0);
    assert_eq!(c.get(Counter::Closed), 2);
}

#[test]
fn period_data_counts_each_category_apart() {
    let mut d = PeriodData::default();
    d.increment(IssueCategory::Bug, Counter::Opened);
    d.increment(IssueCategory::Improvement, Counter::Closed);
    d.increment(IssueCategory::Improvement, Counter::Closed);
    assert_eq!(d.get(IssueCategory::Bug, Counter::Opened), 1);
    assert_eq!(d.get(IssueCategory::Bug, Counter::Closed), 0);
    assert_eq!(d.get(IssueCategory::Improvement, Counter::Closed), 2);
    assert_eq!(d.get(IssueCategory::Uncategorized, Counter::Opened), 0);
}

#[test]
fn first_touch_creates_period() {
    let mut p = PlotData::new(PeriodStrategy::Monthly);
    assert!(!p.contains(month(2023, 7)));
    p.increment(month(2023, 7), IssueCategory::Bug, Counter::Opened);
    assert!(p.contains(month(2023, 7)));
    assert_eq!(p.get(month(2023, 7), IssueCategory::Bug, Counter::Opened), 1);
    assert_eq!(p.get(month(2023, 7), IssueCategory::Bug, Counter::Closed), 0);
    assert_eq!(p.get(month(2023, 7), IssueCategory::Improvement, Counter::Opened), 0);
    assert_eq!(p.event_count(), 1);
}

#[test]
fn sorted_periods_are_calendar_ordered() {
    let mut p = PlotData::new(PeriodStrategy::Monthly);
    p.increment(month(2023, 11), IssueCategory::Bug, Counter::Opened);
    p.increment(month(2023, 3), IssueCategory::Bug, Counter::Opened);
    p.increment(month(2024, 1), IssueCategory::Bug, Counter::Opened);
    p.increment(month(2023, 11), IssueCategory::Bug, Counter::Closed);
    assert_eq!(p.sorted_periods(), vec![month(2023, 3), month(2023, 11), month(2024, 1)]);
}

#[test]
fn running_totals_are_opened_minus_closed() {
    let mut p = PlotData::new(PeriodStrategy::Monthly);
    let first = month(2023, 1);
    let second = month(2023, 2);
    for _ in 0..5 {
        p.increment(first, IssueCategory::Bug, Counter::Opened);
    }
    for _ in 0..2 {
        p.increment(first, IssueCategory::Bug, Counter::Closed);
    }
    p.increment(second, IssueCategory::Bug, Counter::Opened);
    for _ in 0..3 {
        p.increment(second, IssueCategory::Bug, Counter::Closed);
    }
    let rows = p.accumulate();
    assert_eq!(rows.len(), 2);
    assert_eq!(rows[0].period, first);
    assert_eq!(rows[0].opened.bug, 5);
    assert_eq!(rows[0].closed.bug, 2);
    assert_eq!(rows[0].open.bug, 3);
    assert_eq!(rows[1].period, second);
    assert_eq!(rows[1].open.bug, 1);
    assert_eq!(rows[1].open_total, 1);
    assert_eq!(rows[1].open.get(IssueCategory::Bug), 1);
}

#[test]
fn running_totals_are_not_clamped() {
    let mut p = PlotData::new(PeriodStrategy::Monthly);
    p.increment(month(2023, 1), IssueCategory::Improvement, Counter::Closed);
    p.increment(month(2023, 1), IssueCategory::Bug, Counter::Closed);
    p.increment(month(2023, 2), IssueCategory::Bug, Counter::Opened);
    let rows = p.accumulate();
    assert_eq!(rows[0].open.improvement, -1);
    assert_eq!(rows[0].open.bug, -1);
    assert_eq!(rows[0].open_total, -2);
    assert_eq!(rows[1].open.bug, 0);
    assert_eq!(rows[1].open.improvement, -1);
    assert_eq!(rows[1].open_total, -1);
}

#[test]
fn empty_aggregation_has_no_rows() {
    let p = PlotData::new(PeriodStrategy::Monthly);
    assert!(p.sorted_periods().is_empty());
    assert!(p.accumulate().is_empty());
}

#[test]
fn two_issues_by_week() {
    let origin = 1_672_617_600; // 2023-01-02T00:00:00Z
    let day = 86_400;
    let a = issue(&["C-bug", "A-parser"], origin + day, Some(origin + 2 * WEEK_SECONDS + day), IssueState::Closed);
    let b = issue(&[], origin + WEEK_SECONDS + 3 * day, None, IssueState::Open);
    let mut p = PlotData::new(PeriodStrategy::Weekly { origin: secs(origin) });
    p.analyze_issues(&[a, b]).unwrap();
    let w = |index| Period::Week { index };
    assert_eq!(p.sorted_periods(), vec![w(0), w(1), w(2)]);
    assert_eq!(p.get(w(0), IssueCategory::Bug, Counter::Opened), 1);
    assert_eq!(p.get(w(1), IssueCategory::Uncategorized, Counter::Opened), 1);
    assert_eq!(p.get(w(2), IssueCategory::Bug, Counter::Closed), 1);
    assert_eq!(p.get(w(2), IssueCategory::Bug, Counter::Opened), 0);
    let rows = p.accumulate();
    assert_eq!(rows[2].period, w(2));
    assert_eq!(rows[2].open.bug, 0);
    assert_eq!(rows[2].open.uncategorized, 1);
    assert_eq!(rows[2].open_total, 1);
    assert_eq!(p.event_count(), 3);
}

#[test]
fn closed_state_without_time_closes_at_creation() {
    let created = 1_689_327_000; // 2023-07-14
    let i = issue(&["C-cleanup"], created, None, IssueState::Closed);
    assert_eq!(i.closed_at().unwrap(), Some(secs(created)));
    let mut p = PlotData::new(PeriodStrategy::Monthly);
    p.analyze_issues(&[i]).unwrap();
    assert_eq!(p.get(month(2023, 7), IssueCategory::Improvement, Counter::Opened), 1);
    assert_eq!(p.get(month(2023, 7), IssueCategory::Improvement, Counter::Closed), 1);
}

#[test]
fn explicit_closing_time_wins() {
    let i = issue(&[], 100, Some(200), IssueState::Open);
    assert_eq!(i.closed_at().unwrap(), Some(secs(200)));
    let i = issue(&[], 100, None, IssueState::Open);
    assert_eq!(i.closed_at().unwrap(), None);
}

#[test]
fn unknown_state_is_an_error_and_records_nothing() {
    let good = issue(&["C-bug"], 100, None, IssueState::Open);
    let bad = issue(&["C-bug"], 100, None, IssueState::Other("LOCKED".to_string()));
    match bad.closed_at() {
        Err(AnalysisError::UnknownState(s)) => assert_eq!(s, "LOCKED"),
        other => panic!("unexpected {:?}", other),
    }
    let mut p = PlotData::new(PeriodStrategy::Monthly);
    let r = p.analyze_issues(&[good, bad]);
    assert!(matches!(r, Err(AnalysisError::UnknownState(_))));
    assert!(p.sorted_periods().is_empty());
    assert_eq!(p.event_count(), 0);
}

#[test]
fn unknown_labels_are_an_error() {
    let bad = issue(&["C-mystery"], 100, None, IssueState::Open);
    let mut p = PlotData::new(PeriodStrategy::Monthly);
    match p.analyze_issues(&[bad]) {
        Err(AnalysisError::UnknownCategoryLabels(e)) => {
            assert_eq!(e.unknown_labels, vec!["C-mystery".to_string()])
        }
        other => panic!("unexpected {:?}", other),
    }
    assert_eq!(p.event_count(), 0);
}

#[test]
fn issue_category_reads_its_labels() {
    let i = issue(&["T-compiler", "C-feature-request"], 100, None, IssueState::Open);
    assert_eq!(i.category().unwrap(), IssueCategory::Improvement);
}

#[test]
fn increments_commute_and_add_one() {
    let events = [
        (month(2023, 5), IssueCategory::Bug, Counter::Opened),
        (month(2023, 4), IssueCategory::Improvement, Counter::Closed),
        (month(2023, 5), IssueCategory::Bug, Counter::Closed),
        (month(2023, 5), IssueCategory::Bug, Counter::Opened),
    ];
    let mut forward = PlotData::new(PeriodStrategy::Monthly);
    let mut backward = PlotData::new(PeriodStrategy::Monthly);
    for &(p, c, k) in events.iter() {
        forward.increment(p, c, k);
    }
    for &(p, c, k) in events.iter().rev() {
        backward.increment(p, c, k);
    }
    assert_eq!(forward.sorted_periods(), backward.sorted_periods());
    for p in forward.sorted_periods() {
        for c in [IssueCategory::Bug, IssueCategory::Improvement, IssueCategory::Uncategorized] {
            for k in [Counter::Opened, Counter::Closed] {
                assert_eq!(forward.get(p, c, k), backward.get(p, c, k));
            }
        }
    }
    let before = forward.get(month(2023, 5), IssueCategory::Bug, Counter::Opened);
    forward.increment(month(2023, 5), IssueCategory::Bug, Counter::Opened);
    assert_eq!(forward.get(month(2023, 5), IssueCategory::Bug, Counter::Opened), before + 1);
    assert_eq!(forward.get(month(2023, 5), IssueCategory::Bug, Counter::Closed), 1);
    assert_eq!(before, 2);
}
