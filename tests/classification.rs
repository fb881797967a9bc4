use rust_issue_stats::category::{is_category_label, IssueCategory};

fn labels(names: &[&str]) -> Vec<String> {
    names.iter().map(|s| s.to_string()).collect()
}

#[test]
fn empty_c_labels_are_uncategorized() {
    let r = IssueCategory::from_c_labels(&labels(&[])).unwrap();
    assert_eq!(r, IssueCategory::Uncategorized);
}

#[test]
fn bug_label_wins() {
    let r = IssueCategory::from_c_labels(&labels(&["C-enhancement", "C-bug"])).unwrap();
    assert_eq!(r, IssueCategory::Bug);
}

#[test]
fn each_improvement_label_is_improvement() {
    for name in [
        "C-enhancement",
        "C-feature-request",
        "C-optimization",
        "C-cleanup",
        "C-feature-accepted",
        "C-tracking-issue",
        "C-future-compatibility",
    ] {
        let r = IssueCategory::from_c_labels(&labels(&[name])).unwrap();
        assert_eq!(r, IssueCategory::Improvement, "{}", name);
    }
}

#[test]
fn discussion_is_uncategorized() {
    let r = IssueCategory::from_c_labels(&labels(&["C-discussion"])).unwrap();
    assert_eq!(r, IssueCategory::Uncategorized);
}

#[test]
fn improvement_before_discussion() {
    let r = IssueCategory::from_c_labels(&labels(&["C-discussion", "C-cleanup"])).unwrap();
    assert_eq!(r, IssueCategory::Improvement);
}

#[test]
fn unknown_c_labels_are_an_error() {
    let err = IssueCategory::from_c_labels(&labels(&["C-unknown", "C-other"])).unwrap_err();
    assert_eq!(err.unknown_labels, labels(&["C-unknown", "C-other"]));
}

#[test]
fn known_label_beside_unknown_one_still_classifies() {
    let r = IssueCategory::from_c_labels(&labels(&["C-unknown", "C-bug"])).unwrap();
    assert_eq!(r, IssueCategory::Bug);
}

#[test]
fn every_known_vocabulary_set_classifies() {
    let known = [
        "C-bug",
        "C-enhancement",
        "C-feature-request",
        "C-optimization",
        "C-cleanup",
        "C-feature-accepted",
        "C-tracking-issue",
        "C-future-compatibility",
        "C-discussion",
    ];
    for mask in 1u32..(1 << known.len()) {
        let set: Vec<String> = known
            .iter()
            .enumerate()
            .filter(|(i, _)| mask & (1 << i) != 0)
            .map(|(_, s)| s.to_string())
            .collect();
        let r = IssueCategory::from_c_labels(&set);
        assert!(r.is_ok(), "{:?}", set);
    }
}

#[test]
fn other_labels_are_left_aside() {
    let r = IssueCategory::from_labels(&labels(&["A-parser", "T-compiler", "C-bug"])).unwrap();
    assert_eq!(r, IssueCategory::Bug);
    let r = IssueCategory::from_labels(&labels(&["A-parser", "I-slow"])).unwrap();
    assert_eq!(r, IssueCategory::Uncategorized);
}

#[test]
fn error_carries_only_c_labels() {
    let err = IssueCategory::from_labels(&labels(&["A-parser", "C-weird", "T-lang"])).unwrap_err();
    assert_eq!(err.unknown_labels, labels(&["C-weird"]));
}

#[test]
fn category_prefix() {
    assert!(is_category_label(&"C-bug".to_string()));
    assert!(is_category_label(&"C-".to_string()));
    assert!(!is_category_label(&"C".to_string()));
    assert!(!is_category_label(&"c-bug".to_string()));
    assert!(!is_category_label(&"A-C-bug".to_string()));
    assert!(!is_category_label(&"".to_string()));
    assert!(!is_category_label(&"Ç-bug".to_string()));
}
