//! Issues as the statistics read them, and what each one adds to them.

use vstd::prelude::*;
use crate::category::{
    category_labels, category_of_labels, label_texts, ClassificationError, IssueCategory,
};
use crate::models::{label_names, Labels};
use crate::time::{period_of, Period, PeriodStrategy, Timestamp};

verus! {

/// The state the server reports for an issue.
#[derive(Debug, Clone, PartialEq, Eq)]
pub enum IssueState {
    Open,
    Closed,
    /// A state this library does not know, as the server wrote it.
    Other(String),
}

/// One issue as the query returns it: what the statistics read of it.
#[derive(Debug, Clone)]
pub struct IssueNode {
    pub url: String,
    pub labels: Labels,
    pub created_at: Timestamp,
    pub closed_at: Option<Timestamp>,
    pub state: IssueState,
}

/// Why an issue could not be counted.
#[derive(Debug, Clone)]
pub enum AnalysisError {
    /// Its `C-` labels name no known category.
    UnknownCategoryLabels(ClassificationError),
    /// The server reported a state this library does not know.
    UnknownState(String),
}

/// The category of an issue, from its labels.
pub open spec fn issue_category(issue: IssueNode) -> Option<IssueCategory> {
    category_of_labels(label_names(issue.labels))
}

/// When an issue was closed: `Some(None)` while it is open, `None` where its
/// state is unknown. An issue reported closed without a closing time counts
/// as closed when it was created.
pub open spec fn issue_closed_at(issue: IssueNode) -> Option<Option<Timestamp>> {
    match issue.closed_at {
        Some(t) => Some(Some(t)),
        None => match issue.state {
            IssueState::Open => Some(None),
            IssueState::Closed => Some(Some(issue.created_at)),
            IssueState::Other(_) => None,
        },
    }
}

/// What an issue adds to the statistics: its category, the period it was
/// opened in, and the period it was closed in, if it was.
#[derive(Debug, Clone, Copy)]
pub struct IssueRecord {
    pub category: IssueCategory,
    pub opened: Period,
    pub closed: Option<Period>,
}

/// The record of an issue under `strategy`; `None` where the issue cannot be
/// counted.
pub open spec fn issue_record(issue: IssueNode, strategy: PeriodStrategy) -> Option<IssueRecord> {
    match (issue_category(issue), issue_closed_at(issue)) {
        (Some(category), Some(closed)) => Some(
            IssueRecord {
                category,
                opened: period_of(strategy, issue.created_at),
                closed: match closed {
                    Some(t) => Some(period_of(strategy, t)),
                    None => None,
                },
            },
        ),
        _ => None,
    }
}

impl IssueNode {
    /// The category of the issue, from those of its labels that start with `C-`.
    pub fn category(&self) -> (r: Result<IssueCategory, ClassificationError>)
        ensures
            issue_category(*self) matches Some(c) ==> r == Ok::<IssueCategory, ClassificationError>(
                c,
            ),
            issue_category(*self) is None ==> (r matches Err(e) && label_texts(e.unknown_labels@)
                == category_labels(label_names(self.labels))),
    {
        let names = self.labels.names();
        assert(label_texts(names@) == label_names(self.labels));
        IssueCategory::from_labels(names.as_slice())
    }

    /// When the issue was closed, if it was. An issue reported closed without
    /// a closing time counts as closed when it was created; an unknown state
    /// is an error.
    pub fn closed_at(&self) -> (r: Result<Option<Timestamp>, AnalysisError>)
        ensures
            issue_closed_at(*self) matches Some(c) ==> r == Ok::<Option<Timestamp>, AnalysisError>(
                c,
            ),
            issue_closed_at(*self) is None ==> (r matches Err(AnalysisError::UnknownState(s))
                && self.state == IssueState::Other(s)),
    {
        match self.closed_at {
            Some(t) => Ok(Some(t)),
            None => match &self.state {
                IssueState::Open => Ok(None),
                IssueState::Closed => Ok(Some(self.created_at)),
                IssueState::Other(s) => Err(AnalysisError::UnknownState(s.clone())),
            },
        }
    }

    /// What the issue adds to the statistics under `strategy`.
    pub fn record(&self, strategy: &PeriodStrategy) -> (r: Result<IssueRecord, AnalysisError>)
        ensures
            issue_record(*self, *strategy) matches Some(rec) ==> r == Ok::<
                IssueRecord,
                AnalysisError,
            >(rec),
            issue_record(*self, *strategy) is None ==> r is Err,
    {
        let category = match self.category() {
            Ok(c) => c,
            Err(e) => {
                return Err(AnalysisError::UnknownCategoryLabels(e));
            },
        };
        let closed_at = match self.closed_at() {
            Ok(c) => c,
            Err(e) => {
                return Err(e);
            },
        };
        let opened = strategy.period_of(self.created_at);
        let closed = match closed_at {
            Some(t) => Some(strategy.period_of(t)),
            None => None,
        };
        Ok(IssueRecord { category, opened, closed })
    }
}

} // verus!
