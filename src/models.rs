//! The plain data the query returns: labels, actors, page information, timeline events.

use vstd::prelude::*;
use crate::time::Timestamp;

verus! {

/// A label of an issue.
#[derive(Debug, Clone, PartialEq, Eq)]
pub struct Label {
    pub name: String,
}

/// The labels of an issue, in the order the server lists them.
#[derive(Debug, Clone)]
pub struct Labels {
    pub nodes: Vec<Label>,
}

/// The account that performed an event.
#[derive(Debug, Clone, PartialEq, Eq)]
pub struct Actor {
    pub login: String,
}

/// Where a forward page ends, and whether another follows it.
#[derive(Debug, Clone)]
pub struct NextPageInfo {
    pub end_cursor: Option<String>,
    pub has_next_page: bool,
}

/// Where a backward page starts, and whether another precedes it.
#[derive(Debug, Clone)]
pub struct PreviousPageInfo {
    pub has_previous_page: bool,
    pub start_cursor: Option<String>,
}

/// One event on the timeline of an issue.
#[derive(Debug, Clone)]
pub enum TimelineItem {
    LabeledEvent { created_at: Timestamp, label: Label },
    UnlabeledEvent { created_at: Timestamp, label: Label },
    ClosedEvent { created_at: Timestamp },
    ReopenedEvent { created_at: Timestamp, actor: Actor },
    IssueComment { created_at: Timestamp },
}

/// A page of timeline events.
#[derive(Debug, Clone)]
pub struct TimelineItems {
    pub nodes: Vec<TimelineItem>,
    pub page_info: NextPageInfo,
}

/// The text of each label, in order.
pub open spec fn label_names(labels: Labels) -> Seq<Seq<char>> {
    labels.nodes@.map_values(|l: Label| l.name@)
}

impl Labels {
    /// The names of the labels, in order.
    pub fn names(&self) -> (r: Vec<String>)
        ensures
            r@.map_values(|s: String| s@) == label_names(*self),
    {
        let mut r: Vec<String> = Vec::new();
        let mut i: usize = 0;
        while i < self.nodes.len()
            invariant
                0 <= i <= self.nodes@.len(),
                r@.len() == i,
                forall|j: int| 0 <= j < i ==> #[trigger] r@[j]@ == self.nodes@[j].name@,
            decreases self.nodes@.len() - i,
        {
            r.push(self.nodes[i].name.clone());
            i = i + 1;
        }
        assert(r@.map_values(|s: String| s@) =~= label_names(*self));
        r
    }
}

impl PreviousPageInfo {
    /// Reading pages backward, the page before this one is the next to fetch,
    /// and it ends where this one starts.
    pub fn backward(&self) -> (r: NextPageInfo)
        ensures
            r.has_next_page == self.has_previous_page,
            r.end_cursor == self.start_cursor,
    {
        let end_cursor = match &self.start_cursor {
            Some(c) => Some(c.clone()),
            None => None,
        };
        NextPageInfo { end_cursor, has_next_page: self.has_previous_page }
    }
}

impl TimelineItem {
    /// When the event happened.
    pub fn created_at(&self) -> (r: Timestamp)
        ensures
            r == match *self {
                TimelineItem::LabeledEvent { created_at, .. } => created_at,
                TimelineItem::UnlabeledEvent { created_at, .. } => created_at,
                TimelineItem::ClosedEvent { created_at } => created_at,
                TimelineItem::ReopenedEvent { created_at, .. } => created_at,
                TimelineItem::IssueComment { created_at } => created_at,
            },
    {
        match self {
            TimelineItem::LabeledEvent { created_at, .. } => *created_at,
            TimelineItem::UnlabeledEvent { created_at, .. } => *created_at,
            TimelineItem::ClosedEvent { created_at } => *created_at,
            TimelineItem::ReopenedEvent { created_at, .. } => *created_at,
            TimelineItem::IssueComment { created_at } => *created_at,
        }
    }
}

} // verus!
