//! Classification of issues into categories by their `C-` labels.

use vstd::prelude::*;

verus! {

/// The category of an issue, derived from its `C-` labels.
#[derive(Debug, Clone, Copy, PartialEq, Eq, Hash, Structural)]
pub enum IssueCategory {
    /// C-bug
    Bug,
    /// C-enhancement, C-feature-request, C-optimization, C-cleanup,
    /// C-feature-accepted, C-tracking-issue, C-future-compatibility.
    Improvement,
    /// C-discussion and issues without a C-* label.
    Uncategorized,
}

/// The `C-` labels of an issue matched none of the known category labels.
#[derive(Debug, Clone)]
pub struct ClassificationError {
    pub unknown_labels: Vec<String>,
}

/// The text of each label.
pub open spec fn label_texts(labels: Seq<String>) -> Seq<Seq<char>> {
    labels.map_values(|l: String| l@)
}

/// A label that names a category starts with `C-`.
pub open spec fn has_category_prefix(label: Seq<char>) -> bool {
    label.len() >= 2 && label[0] == 'C' && label[1] == '-'
}

/// The labels among `labels` that name a category, in their order.
pub open spec fn category_labels(labels: Seq<Seq<char>>) -> Seq<Seq<char>> {
    labels.filter(|l: Seq<char>| has_category_prefix(l))
}

pub open spec fn is_bug_label(label: Seq<char>) -> bool {
    label == "C-bug"@
}

pub open spec fn is_improvement_label(label: Seq<char>) -> bool {
    ||| label == "C-enhancement"@
    ||| label == "C-feature-request"@
    ||| label == "C-optimization"@
    ||| label == "C-cleanup"@
    ||| label == "C-feature-accepted"@
    ||| label == "C-tracking-issue"@
    ||| label == "C-future-compatibility"@
}

pub open spec fn is_discussion_label(label: Seq<char>) -> bool {
    label == "C-discussion"@
}

/// One of the category labels that the classification knows.
pub open spec fn is_known_label(label: Seq<char>) -> bool {
    is_bug_label(label) || is_improvement_label(label) || is_discussion_label(label)
}

pub open spec fn any_label(labels: Seq<Seq<char>>, pred: spec_fn(Seq<char>) -> bool) -> bool {
    exists|i: int| 0 <= i < labels.len() && pred(labels[i])
}

/// The category that a list of `C-` labels stands for; `None` when the list is
/// not empty and holds no known label. The first rule that matches wins:
/// no label, then a bug label, then an improvement label, then a discussion label.
pub open spec fn category_of_c_labels(labels: Seq<Seq<char>>) -> Option<IssueCategory> {
    if labels.len() == 0 {
        Some(IssueCategory::Uncategorized)
    } else if any_label(labels, |l: Seq<char>| is_bug_label(l)) {
        Some(IssueCategory::Bug)
    } else if any_label(labels, |l: Seq<char>| is_improvement_label(l)) {
        Some(IssueCategory::Improvement)
    } else if any_label(labels, |l: Seq<char>| is_discussion_label(l)) {
        Some(IssueCategory::Uncategorized)
    } else {
        None
    }
}

/// The category of an issue with the given labels, of which only those that
/// start with `C-` count.
pub open spec fn category_of_labels(labels: Seq<Seq<char>>) -> Option<IssueCategory> {
    category_of_c_labels(category_labels(labels))
}

fn label_is(label: &String, name: &str) -> (r: bool)
    ensures
        r == (label@ == name@),
{
    let expected: String = name.to_owned();
    *label == expected
}

fn is_bug(label: &String) -> (r: bool)
    ensures
        r == is_bug_label(label@),
{
    label_is(label, "C-bug")
}

fn is_improvement(label: &String) -> (r: bool)
    ensures
        r == is_improvement_label(label@),
{
    label_is(label, "C-enhancement") || label_is(label, "C-feature-request") || label_is(
        label,
        "C-optimization",
    ) || label_is(label, "C-cleanup") || label_is(label, "C-feature-accepted") || label_is(
        label,
        "C-tracking-issue",
    ) || label_is(label, "C-future-compatibility")
}

fn is_discussion(label: &String) -> (r: bool)
    ensures
        r == is_discussion_label(label@),
{
    label_is(label, "C-discussion")
}

/// Whether the label starts with `C-`.
pub fn is_category_label(label: &String) -> (r: bool)
    ensures
        r == has_category_prefix(label@),
{
    let s: &str = label.as_str();
    if s.unicode_len() < 2 {
        false
    } else {
        s.get_char(0) == 'C' && s.get_char(1) == '-'
    }
}

impl IssueCategory {
    /// Classifies an issue by its `C-` labels. An empty list is uncategorized;
    /// a list that holds none of the known labels is an error that carries it.
    pub fn from_c_labels(labels: &[String]) -> (r: Result<IssueCategory, ClassificationError>)
        ensures
            category_of_c_labels(label_texts(labels@)) matches Some(c) ==> r == Ok::<
                IssueCategory,
                ClassificationError,
            >(c),
            category_of_c_labels(label_texts(labels@)) is None ==> (r matches Err(e)
                && e.unknown_labels@ == labels@),
    {
        let ghost texts = label_texts(labels@);
        if labels.len() == 0 {
            return Ok(IssueCategory::Uncategorized);
        }
        let mut i: usize = 0;
        while i < labels.len()
            invariant
                0 <= i <= labels@.len(),
                texts == label_texts(labels@),
                forall|j: int| 0 <= j < i ==> !is_bug_label(#[trigger] texts[j]),
            decreases labels@.len() - i,
        {
            if is_bug(&labels[i]) {
                assert(is_bug_label(texts[i as int]));
                return Ok(IssueCategory::Bug);
            }
            i = i + 1;
        }
        let mut i: usize = 0;
        while i < labels.len()
            invariant
                0 <= i <= labels@.len(),
                texts == label_texts(labels@),
                forall|j: int| 0 <= j < labels@.len() ==> !is_bug_label(#[trigger] texts[j]),
                forall|j: int| 0 <= j < i ==> !is_improvement_label(#[trigger] texts[j]),
            decreases labels@.len() - i,
        {
            if is_improvement(&labels[i]) {
                assert(is_improvement_label(texts[i as int]));
                return Ok(IssueCategory::Improvement);
            }
            i = i + 1;
        }
        let mut i: usize = 0;
        while i < labels.len()
            invariant
                0 <= i <= labels@.len(),
                texts == label_texts(labels@),
                forall|j: int| 0 <= j < labels@.len() ==> !is_bug_label(#[trigger] texts[j]),
                forall|j: int|
                    0 <= j < labels@.len() ==> !is_improvement_label(#[trigger] texts[j]),
                forall|j: int| 0 <= j < i ==> !is_discussion_label(#[trigger] texts[j]),
            decreases labels@.len() - i,
        {
            if is_discussion(&labels[i]) {
                assert(is_discussion_label(texts[i as int]));
                return Ok(IssueCategory::Uncategorized);
            }
            i = i + 1;
        }
        Err(ClassificationError { unknown_labels: copy_labels(labels) })
    }
}

impl IssueCategory {
    /// Classifies an issue by all its labels: those that do not start with
    /// `C-` are left aside, the rest go to `from_c_labels`.
    pub fn from_labels(labels: &[String]) -> (r: Result<IssueCategory, ClassificationError>)
        ensures
            category_of_labels(label_texts(labels@)) matches Some(c) ==> r == Ok::<
                IssueCategory,
                ClassificationError,
            >(c),
            category_of_labels(label_texts(labels@)) is None ==> (r matches Err(e) && label_texts(
                e.unknown_labels@,
            ) == category_labels(label_texts(labels@))),
    {
        let c_labels = select_category_labels(labels);
        IssueCategory::from_c_labels(c_labels.as_slice())
    }
}

/// The labels that start with `C-`, in their order.
fn select_category_labels(labels: &[String]) -> (r: Vec<String>)
    ensures
        label_texts(r@) == category_labels(label_texts(labels@)),
{
    let mut r: Vec<String> = Vec::new();
    let mut i: usize = 0;
    while i < labels.len()
        invariant
            0 <= i <= labels@.len(),
            label_texts(r@) == category_labels(label_texts(labels@.subrange(0, i as int))),
        decreases labels@.len() - i,
    {
        let ghost before = label_texts(labels@.subrange(0, i as int));
        let ghost after = label_texts(labels@.subrange(0, i + 1));
        assert(after.drop_last() =~= before);
        assert(after.last() == labels@[i as int]@);
        proof {
            reveal(Seq::filter);
        }
        if is_category_label(&labels[i]) {
            r.push(labels[i].clone());
            assert(label_texts(r@) =~= category_labels(before).push(labels@[i as int]@));
        }
        i = i + 1;
    }
    assert(labels@.subrange(0, labels@.len() as int) =~= labels@);
    r
}

/// Classification is total over the known category labels: a non-empty list
/// of known labels always has a category, which is one of the three. A
/// non-empty list of labels none of which is known has none, and is refused.
pub proof fn lemma_classification_total(labels: Seq<Seq<char>>)
    requires
        labels.len() > 0,
    ensures
        (forall|i: int| 0 <= i < labels.len() ==> is_known_label(#[trigger] labels[i]))
            ==> category_of_c_labels(labels) is Some,
        (forall|i: int| 0 <= i < labels.len() ==> !is_known_label(#[trigger] labels[i]))
            ==> category_of_c_labels(labels) is None,
{
    if forall|i: int| 0 <= i < labels.len() ==> is_known_label(#[trigger] labels[i]) {
        assert(is_known_label(labels[0]));
    }
}

fn copy_labels(labels: &[String]) -> (r: Vec<String>)
    ensures
        r@ == labels@,
{
    let mut r: Vec<String> = Vec::new();
    let mut i: usize = 0;
    while i < labels.len()
        invariant
            0 <= i <= labels@.len(),
            r@ == labels@.subrange(0, i as int),
        decreases labels@.len() - i,
    {
        r.push(labels[i].clone());
        i = i + 1;
    }
    assert(r@ =~= labels@);
    r
}

} // verus!
