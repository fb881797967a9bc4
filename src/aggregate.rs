//! Per-period counts of opened and closed issues, and running totals across periods.

use vstd::prelude::*;
use crate::category::IssueCategory;
use crate::issue::{issue_record, AnalysisError, IssueNode, IssueRecord};
use crate::time::{period_lt, Period, PeriodStrategy};

verus! {

/// Which of the two counts of a category.
#[derive(Debug, Clone, Copy, PartialEq, Eq, Hash, Structural)]
pub enum Counter {
    Opened,
    Closed,
}

pub open spec fn counter_slot(k: Counter) -> int {
    match k {
        Counter::Opened => 0,
        Counter::Closed => 1,
    }
}

pub open spec fn category_rank(c: IssueCategory) -> int {
    match c {
        IssueCategory::Bug => 0,
        IssueCategory::Improvement => 1,
        IssueCategory::Uncategorized => 2,
    }
}

/// Where the count of `k` for category `c` stands among the six counts of a period.
pub open spec fn slot(c: IssueCategory, k: Counter) -> int {
    2 * category_rank(c) + counter_slot(k)
}

/// The counts of a period that nothing was recorded in.
pub open spec fn zero_counts() -> Seq<int> {
    seq![0, 0, 0, 0, 0, 0]
}

/// `counts` with one more at `s`.
pub open spec fn bump(counts: Seq<int>, s: int) -> Seq<int> {
    counts.update(s, counts[s] + 1)
}

/// The counts of period `p` in `m`, zero where it has none.
pub open spec fn counts_or_zero(m: Map<Period, Seq<int>>, p: Period) -> Seq<int> {
    if m.contains_key(p) {
        m[p]
    } else {
        zero_counts()
    }
}

/// `m` with one more event of slot `s` in period `p`.
pub open spec fn add_one(m: Map<Period, Seq<int>>, p: Period, s: int) -> Map<Period, Seq<int>> {
    m.insert(p, bump(counts_or_zero(m, p), s))
}

/// `m` with the events of one issue added: its opening, and its closing if
/// it was closed.
pub open spec fn add_record(m: Map<Period, Seq<int>>, rec: IssueRecord) -> Map<Period, Seq<int>> {
    let m1 = add_one(m, rec.opened, slot(rec.category, Counter::Opened));
    match rec.closed {
        Some(p) => add_one(m1, p, slot(rec.category, Counter::Closed)),
        None => m1,
    }
}

/// `m` with the events of each record added, in order.
pub open spec fn add_records(m: Map<Period, Seq<int>>, recs: Seq<IssueRecord>) -> Map<
    Period,
    Seq<int>,
>
    decreases recs.len(),
{
    if recs.len() == 0 {
        m
    } else {
        add_record(add_records(m, recs.drop_last()), recs.last())
    }
}

/// How many events a record stands for.
pub open spec fn record_events(rec: IssueRecord) -> int {
    if rec.closed is Some {
        2
    } else {
        1
    }
}

pub open spec fn records_events(recs: Seq<IssueRecord>) -> int
    decreases recs.len(),
{
    if recs.len() == 0 {
        0
    } else {
        records_events(recs.drop_last()) + record_events(recs.last())
    }
}

/// The records of issues that can all be counted.
pub open spec fn issue_records(issues: Seq<IssueNode>, strategy: PeriodStrategy) -> Seq<
    IssueRecord,
> {
    issues.map_values(|i: IssueNode| issue_record(i, strategy).unwrap())
}

/// The net number of issues of category `c` opened over the first `k`
/// periods of `keys`: the running total of openings minus closings, which
/// may go below zero.
pub open spec fn open_running(
    m: Map<Period, Seq<int>>,
    keys: Seq<Period>,
    k: int,
    c: IssueCategory,
) -> int
    decreases k,
{
    if k <= 0 {
        0
    } else {
        open_running(m, keys, k - 1, c) + m[keys[k - 1]][slot(c, Counter::Opened)]
            - m[keys[k - 1]][slot(c, Counter::Closed)]
    }
}

/// Every element of `s` comes strictly before the next.
pub open spec fn strictly_ascending(s: Seq<Period>) -> bool {
    forall|i: int, j: int| 0 <= i < j < s.len() ==> period_lt(s[i], s[j])
}

/// Each period in `m` holds six counts, none of them negative.
pub open spec fn well_shaped(m: Map<Period, Seq<int>>) -> bool {
    forall|p: Period|
        #[trigger] m.contains_key(p) ==> m[p].len() == 6 && forall|s: int|
            0 <= s < 6 ==> #[trigger] m[p][s] >= 0
}

/// Recording two events gives the same counts in either order.
pub proof fn lemma_increments_commute(m: Map<Period, Seq<int>>, p: Period, s: int, q: Period, t: int)
    requires
        well_shaped(m),
        0 <= s < 6,
        0 <= t < 6,
    ensures
        add_one(add_one(m, p, s), q, t) == add_one(add_one(m, q, t), p, s),
{
    if p == q {
        let x = counts_or_zero(m, p);
        assert(bump(bump(x, s), t) =~= bump(bump(x, t), s));
    }
    assert(add_one(add_one(m, p, s), q, t) =~= add_one(add_one(m, q, t), p, s));
}

/// Counts only grow within an aggregation pass: recording the events of any
/// issues keeps every period already recorded in, and lowers none of its
/// counts.
pub proof fn lemma_counts_never_decrease(m: Map<Period, Seq<int>>, recs: Seq<IssueRecord>)
    requires
        six_each(m),
    ensures
        forall|p: Period| #[trigger] m.contains_key(p) ==> add_records(m, recs).contains_key(p),
        forall|p: Period, s: int|
            m.contains_key(p) && 0 <= s < 6 ==> m[p][s] <= #[trigger] add_records(m, recs)[p][s],
        forall|p: Period| #[trigger] add_records(m, recs).contains_key(p) ==> add_records(
            m,
            recs,
        )[p].len() == 6,
    decreases recs.len(),
{
    if recs.len() > 0 {
        lemma_counts_never_decrease(m, recs.drop_last());
    }
}

/// The count of kind `k` in a period's counts, over the three categories.
pub open spec fn kind_count(d: Seq<int>, k: Counter) -> int {
    d[counter_slot(k)] + d[counter_slot(k) + 2] + d[counter_slot(k) + 4]
}

/// The count of kind `k` over the periods `keys`, a period without counts
/// counting zero.
pub open spec fn kind_total(m: Map<Period, Seq<int>>, keys: Seq<Period>, k: Counter) -> int
    decreases keys.len(),
{
    if keys.len() == 0 {
        0
    } else {
        kind_total(m, keys.drop_last(), k) + kind_count(counts_or_zero(m, keys.last()), k)
    }
}

/// How many of the records were closed.
pub open spec fn closed_records(recs: Seq<IssueRecord>) -> int
    decreases recs.len(),
{
    if recs.len() == 0 {
        0
    } else {
        closed_records(recs.drop_last()) + if recs.last().closed is Some {
            1int
        } else {
            0
        }
    }
}

pub open spec fn six_each(m: Map<Period, Seq<int>>) -> bool {
    forall|p: Period| #[trigger] m.contains_key(p) ==> m[p].len() == 6
}

/// Whether slot `s` holds a count of kind `k`.
pub open spec fn slot_kind(s: int, k: Counter) -> int {
    if s == counter_slot(k) || s == counter_slot(k) + 2 || s == counter_slot(k) + 4 {
        1
    } else {
        0
    }
}

proof fn lemma_kind_total_elsewhere(m: Map<Period, Seq<int>>, keys: Seq<Period>, p: Period, s: int, k: Counter)
    requires
        !keys.contains(p),
    ensures
        kind_total(add_one(m, p, s), keys, k) == kind_total(m, keys, k),
    decreases keys.len(),
{
    if keys.len() > 0 {
        assert(!keys.drop_last().contains(p)) by {
            if keys.drop_last().contains(p) {
                let j = choose|j: int| 0 <= j < keys.drop_last().len() && keys.drop_last()[j] == p;
                assert(keys[j] == p);
            }
        }
        assert(keys.last() != p) by {
            if keys.last() == p {
                assert(keys[keys.len() - 1] == p);
            }
        }
        lemma_kind_total_elsewhere(m, keys.drop_last(), p, s, k);
    }
}

proof fn lemma_kind_total_add_one(m: Map<Period, Seq<int>>, keys: Seq<Period>, p: Period, s: int, k: Counter)
    requires
        six_each(m),
        0 <= s < 6,
        keys.no_duplicates(),
        keys.contains(p),
    ensures
        kind_total(add_one(m, p, s), keys, k) == kind_total(m, keys, k) + slot_kind(s, k),
    decreases keys.len(),
{
    let rest = keys.drop_last();
    if keys.last() == p {
        assert(!rest.contains(p)) by {
            if rest.contains(p) {
                let j = choose|j: int| 0 <= j < rest.len() && rest[j] == p;
                assert(keys[j] == keys[keys.len() - 1]);
            }
        }
        lemma_kind_total_elsewhere(m, rest, p, s, k);
        let x = counts_or_zero(m, p);
        assert(x.len() == 6);
        assert(counts_or_zero(add_one(m, p, s), p) == bump(x, s));
    } else {
        let i = choose|i: int| 0 <= i < keys.len() && keys[i] == p;
        assert(rest[i] == p);
        assert(rest.no_duplicates());
        lemma_kind_total_add_one(m, rest, p, s, k);
    }
}

/// Every period a record names has counts after the records were added.
proof fn lemma_records_in_domain(m: Map<Period, Seq<int>>, recs: Seq<IssueRecord>)
    ensures
        forall|i: int|
            0 <= i < recs.len() ==> add_records(m, recs).contains_key(#[trigger] recs[i].opened),
        forall|i: int|
            0 <= i < recs.len() && recs[i].closed is Some ==> add_records(m, recs).contains_key(
                (#[trigger] recs[i]).closed->0,
            ),
    decreases recs.len(),
{
    if recs.len() > 0 {
        let rest = recs.drop_last();
        let rec = recs.last();
        let before = add_records(m, rest);
        let after = add_records(m, recs);
        lemma_records_in_domain(m, rest);
        assert(after == add_record(before, rec));
        assert forall|i: int| 0 <= i < recs.len() implies after.contains_key(
            #[trigger] recs[i].opened,
        ) by {
            if i < rest.len() {
                assert(rest[i] == recs[i]);
                assert(before.contains_key(rest[i].opened));
            }
        }
        assert forall|i: int| 0 <= i < recs.len() && recs[i].closed is Some implies after.contains_key(
            (#[trigger] recs[i]).closed->0,
        ) by {
            if i < rest.len() {
                assert(rest[i] == recs[i]);
                assert(before.contains_key(rest[i].closed->0));
            }
        }
    }
}

/// Recording the events of issues adds one opened count per issue and one
/// closed count per closed issue, summed over any list of distinct periods
/// that holds every period recorded in afterwards (such as the result of
/// `PlotData::sorted_periods`).
pub proof fn lemma_kind_totals(m: Map<Period, Seq<int>>, recs: Seq<IssueRecord>, keys: Seq<Period>)
    requires
        six_each(m),
        keys.no_duplicates(),
        forall|p: Period| #[trigger] add_records(m, recs).contains_key(p) ==> keys.contains(p),
    ensures
        kind_total(add_records(m, recs), keys, Counter::Opened) == kind_total(m, keys, Counter::Opened)
            + recs.len(),
        kind_total(add_records(m, recs), keys, Counter::Closed) == kind_total(m, keys, Counter::Closed)
            + closed_records(recs),
    decreases recs.len(),
{
    if recs.len() > 0 {
        let rest = recs.drop_last();
        let rec = recs.last();
        let before = add_records(m, rest);
        lemma_records_in_domain(m, recs);
        assert(recs[recs.len() - 1] == rec);
        lemma_counts_never_decrease(m, rest);
        assert(add_records(m, recs) == add_record(before, rec));
        assert forall|p: Period| #[trigger] before.contains_key(p) implies keys.contains(p) by {
            assert(add_records(m, recs).contains_key(p));
        }
        lemma_kind_totals(m, rest, keys);
        let so = slot(rec.category, Counter::Opened);
        let m1 = add_one(before, rec.opened, so);
        lemma_kind_total_add_one(before, keys, rec.opened, so, Counter::Opened);
        lemma_kind_total_add_one(before, keys, rec.opened, so, Counter::Closed);
        if let Some(q) = rec.closed {
            let sc = slot(rec.category, Counter::Closed);
            assert(six_each(m1));
            lemma_kind_total_add_one(m1, keys, q, sc, Counter::Opened);
            lemma_kind_total_add_one(m1, keys, q, sc, Counter::Closed);
        }
    }
}

/// The opened and closed counts of one category in one period.
#[derive(Debug, Clone, Copy)]
pub struct Counters {
    opened: i64,
    closed: i64,
}

impl View for Counters {
    type V = Seq<int>;

    closed spec fn view(&self) -> Seq<int> {
        seq![self.opened as int, self.closed as int]
    }
}

impl Default for Counters {
    fn default() -> (r: Counters)
        ensures
            r@ == seq![0int, 0int],
    {
        Counters { opened: 0, closed: 0 }
    }
}

impl Counters {
    pub fn get(&self, counter: Counter) -> (r: i64)
        ensures
            self@.len() == 2,
            r == self@[counter_slot(counter)],
    {
        match counter {
            Counter::Opened => self.opened,
            Counter::Closed => self.closed,
        }
    }

    pub fn increment(&mut self, counter: Counter)
        requires
            old(self)@[counter_slot(counter)] < i64::MAX,
        ensures
            final(self)@ == bump(old(self)@, counter_slot(counter)),
    {
        match counter {
            Counter::Opened => self.opened = self.opened + 1,
            Counter::Closed => self.closed = self.closed + 1,
        }
        assert(self@ =~= bump(old(self)@, counter_slot(counter)));
    }
}

/// The counts of one period: opened and closed, for each category. Its view
/// lists them at `slot(category, counter)`.
#[derive(Debug, Clone, Copy)]
pub struct PeriodData {
    bug: Counters,
    improvement: Counters,
    uncategorized: Counters,
}

impl View for PeriodData {
    type V = Seq<int>;

    closed spec fn view(&self) -> Seq<int> {
        self.bug@ + self.improvement@ + self.uncategorized@
    }
}

impl Default for PeriodData {
    fn default() -> (r: PeriodData)
        ensures
            r@ == zero_counts(),
    {
        let r = PeriodData {
            bug: Counters::default(),
            improvement: Counters::default(),
            uncategorized: Counters::default(),
        };
        assert(r@ =~= zero_counts());
        r
    }
}

impl PeriodData {
    pub fn get(&self, category: IssueCategory, counter: Counter) -> (r: i64)
        ensures
            self@.len() == 6,
            r == self@[slot(category, counter)],
    {
        match category {
            IssueCategory::Bug => self.bug.get(counter),
            IssueCategory::Improvement => self.improvement.get(counter),
            IssueCategory::Uncategorized => self.uncategorized.get(counter),
        }
    }

    pub fn increment(&mut self, category: IssueCategory, counter: Counter)
        requires
            old(self)@[slot(category, counter)] < i64::MAX,
        ensures
            final(self)@ == bump(old(self)@, slot(category, counter)),
    {
        match category {
            IssueCategory::Bug => self.bug.increment(counter),
            IssueCategory::Improvement => self.improvement.increment(counter),
            IssueCategory::Uncategorized => self.uncategorized.increment(counter),
        }
        assert(self@ =~= bump(old(self)@, slot(category, counter)));
    }
}

/// The sum of the six counts of a period.
pub open spec fn period_total(d: Seq<int>) -> int {
    d[0] + d[1] + d[2] + d[3] + d[4] + d[5]
}

/// The sum of all counts of all periods.
pub open spec fn sum_totals(ds: Seq<Seq<int>>) -> int
    decreases ds.len(),
{
    if ds.len() == 0 {
        0
    } else {
        sum_totals(ds.drop_last()) + period_total(ds.last())
    }
}

pub open spec fn all_counts_nonneg(ds: Seq<Seq<int>>) -> bool {
    forall|j: int, s: int| 0 <= j < ds.len() && 0 <= s < 6 ==> #[trigger] ds[j][s] >= 0
}

proof fn lemma_sum_update(ds: Seq<Seq<int>>, i: int, d: Seq<int>)
    requires
        0 <= i < ds.len(),
    ensures
        sum_totals(ds.update(i, d)) == sum_totals(ds) - period_total(ds[i]) + period_total(d),
    decreases ds.len(),
{
    if i == ds.len() - 1 {
        assert(ds.update(i, d).drop_last() =~= ds.drop_last());
    } else {
        assert(ds.update(i, d).drop_last() =~= ds.drop_last().update(i, d));
        lemma_sum_update(ds.drop_last(), i, d);
    }
}

proof fn lemma_sum_insert(ds: Seq<Seq<int>>, i: int, d: Seq<int>)
    requires
        0 <= i <= ds.len(),
    ensures
        sum_totals(ds.insert(i, d)) == sum_totals(ds) + period_total(d),
    decreases ds.len(),
{
    if i == ds.len() {
        assert(ds.insert(i, d).drop_last() =~= ds);
    } else {
        assert(ds.insert(i, d).drop_last() =~= ds.drop_last().insert(i, d));
        lemma_sum_insert(ds.drop_last(), i, d);
    }
}

/// With no negative count, the counts of the first `k` periods add up to no
/// more than those of all.
proof fn lemma_prefix_le_sum(ds: Seq<Seq<int>>, k: int)
    requires
        0 <= k <= ds.len(),
        all_counts_nonneg(ds),
    ensures
        0 <= sum_totals(ds.subrange(0, k)) <= sum_totals(ds),
    decreases ds.len(),
{
    if ds.len() == 0 {
        assert(ds.subrange(0, k) =~= ds);
    } else if k == ds.len() {
        assert(ds.subrange(0, k) =~= ds);
        assert(all_counts_nonneg(ds.drop_last()));
        lemma_prefix_le_sum(ds.drop_last(), k - 1);
        assert(ds.drop_last().subrange(0, k - 1) =~= ds.drop_last());
        assert(ds.last()[0] >= 0 && ds.last()[1] >= 0 && ds.last()[2] >= 0);
        assert(ds.last()[3] >= 0 && ds.last()[4] >= 0 && ds.last()[5] >= 0);
    } else {
        assert(all_counts_nonneg(ds.drop_last()));
        lemma_prefix_le_sum(ds.drop_last(), k);
        assert(ds.drop_last().subrange(0, k) =~= ds.subrange(0, k));
        assert(ds.last()[0] >= 0 && ds.last()[1] >= 0 && ds.last()[2] >= 0);
        assert(ds.last()[3] >= 0 && ds.last()[4] >= 0 && ds.last()[5] >= 0);
    }
}

/// With no negative count, each count is at most the sum of all.
proof fn lemma_count_le_sum(ds: Seq<Seq<int>>, i: int, s: int)
    requires
        0 <= i < ds.len(),
        0 <= s < 6,
        all_counts_nonneg(ds),
    ensures
        ds[i][s] <= sum_totals(ds),
{
    lemma_prefix_le_sum(ds, i);
    lemma_prefix_le_sum(ds, i + 1);
    assert(ds.subrange(0, i + 1).drop_last() =~= ds.subrange(0, i));
    assert(ds[i][0] >= 0 && ds[i][1] >= 0 && ds[i][2] >= 0);
    assert(ds[i][3] >= 0 && ds[i][4] >= 0 && ds[i][5] >= 0);
}

proof fn lemma_period_order(a: Period, b: Period, c: Period)
    ensures
        !period_lt(a, a),
        period_lt(a, b) && period_lt(b, c) ==> period_lt(a, c),
        a != b ==> period_lt(a, b) || period_lt(b, a),
{
}

/// The counts of each entry, in order.
pub open spec fn entry_counts(es: Seq<(Period, PeriodData)>) -> Seq<Seq<int>> {
    es.map_values(|e: (Period, PeriodData)| e.1@)
}

/// The periods of each entry, in order.
pub open spec fn entry_periods(es: Seq<(Period, PeriodData)>) -> Seq<Period> {
    es.map_values(|e: (Period, PeriodData)| e.0)
}

pub open spec fn abs(x: int) -> int {
    if x < 0 {
        -x
    } else {
        x
    }
}

/// One count per category.
#[derive(Debug, Clone, Copy, PartialEq, Eq, Structural)]
pub struct CategoryCounts {
    pub bug: i64,
    pub improvement: i64,
    pub uncategorized: i64,
}

impl CategoryCounts {
    pub open spec fn of(self, c: IssueCategory) -> int {
        match c {
            IssueCategory::Bug => self.bug as int,
            IssueCategory::Improvement => self.improvement as int,
            IssueCategory::Uncategorized => self.uncategorized as int,
        }
    }

    /// The count of `category`.
    pub fn get(&self, category: IssueCategory) -> (r: i64)
        ensures
            r == self.of(category),
    {
        match category {
            IssueCategory::Bug => self.bug,
            IssueCategory::Improvement => self.improvement,
            IssueCategory::Uncategorized => self.uncategorized,
        }
    }
}

/// The statistics of one period: what was opened and closed in it, and what
/// was open at its end.
#[derive(Debug, Clone, Copy, PartialEq, Eq, Structural)]
pub struct PeriodReport {
    pub period: Period,
    pub opened: CategoryCounts,
    pub closed: CategoryCounts,
    /// Per category, issues opened minus issues closed up to and including
    /// this period.
    pub open: CategoryCounts,
    /// The sum of `open` over the categories.
    pub open_total: i64,
}

/// The period of each row, in order.
pub open spec fn report_periods(rows: Seq<PeriodReport>) -> Seq<Period> {
    rows.map_values(|row: PeriodReport| row.period)
}

/// Counts of opened and closed issues per period and category: the state of
/// one aggregation run. Its view maps each period that an event was recorded
/// in to its six counts, listed at `slot(category, counter)`.
pub struct PlotData {
    strategy: PeriodStrategy,
    /// One entry per period, in ascending order of periods.
    periods: Vec<(Period, PeriodData)>,
    /// How many events were recorded: the sum of all counts.
    recorded: u64,
    counts: Ghost<Map<Period, Seq<int>>>,
}

impl View for PlotData {
    type V = Map<Period, Seq<int>>;

    closed spec fn view(&self) -> Map<Period, Seq<int>> {
        self.counts@
    }
}

impl PlotData {
    /// The entries stand in ascending order of periods, agree with the view,
    /// hold no negative count, and add up to the number of events recorded.
    pub closed spec fn wf(&self) -> bool {
        let es = self.periods@;
        &&& strictly_ascending(entry_periods(es))
        &&& forall|i: int|
            0 <= i < es.len() ==> #[trigger] self.counts@.contains_key(es[i].0)
                && self.counts@[es[i].0] == es[i].1@
        &&& forall|p: Period|
            #[trigger] self.counts@.contains_key(p) ==> exists|i: int|
                0 <= i < es.len() && (#[trigger] es[i]).0 == p
        &&& forall|i: int| 0 <= i < es.len() ==> (#[trigger] es[i]).1@.len() == 6
        &&& all_counts_nonneg(entry_counts(es))
        &&& sum_totals(entry_counts(es)) == self.recorded as int
        &&& self.recorded <= i64::MAX
    }

    /// How instants are put into periods in this run.
    pub closed spec fn strategy(&self) -> PeriodStrategy {
        self.strategy
    }

    /// How many events were recorded so far.
    pub closed spec fn events(&self) -> int {
        self.recorded as int
    }

    /// Each period recorded in holds six counts, none of them negative.
    pub proof fn lemma_view_counts(&self)
        requires
            self.wf(),
        ensures
            well_shaped(self@),
    {
        assert forall|p: Period| #[trigger] self@.contains_key(p) implies self@[p].len() == 6
            && forall|s: int| 0 <= s < 6 ==> #[trigger] self@[p][s] >= 0 by {
            let es = self.periods@;
            let i = choose|i: int| 0 <= i < es.len() && (#[trigger] es[i]).0 == p;
            assert(self.counts@.contains_key(es[i].0));
            assert(entry_counts(es)[i] == es[i].1@);
        }
    }

    /// An empty aggregation whose events fall into periods by `strategy`.
    pub fn new(strategy: PeriodStrategy) -> (r: PlotData)
        ensures
            r.wf(),
            r@ == Map::<Period, Seq<int>>::empty(),
            r.strategy() == strategy,
            r.events() == 0,
            well_shaped(r@),
    {
        let r = PlotData {
            strategy,
            periods: Vec::new(),
            recorded: 0,
            counts: Ghost(Map::empty()),
        };
        assert(entry_counts(r.periods@) =~= Seq::<Seq<int>>::empty());
        r
    }

    /// How many events were recorded so far.
    pub fn event_count(&self) -> (r: u64)
        ensures
            r == self.events(),
    {
        self.recorded
    }

    /// Where `period` stands among the entries, or where it would be inserted.
    fn position(&self, period: Period) -> (i: usize)
        requires
            self.wf(),
        ensures
            0 <= i <= self.periods@.len(),
            forall|j: int| 0 <= j < i ==> period_lt(#[trigger] self.periods@[j].0, period),
            forall|j: int|
                i <= j < self.periods@.len() ==> !period_lt(#[trigger] self.periods@[j].0, period),
    {
        let ghost es = self.periods@;
        let mut i: usize = 0;
        while i < self.periods.len() && self.periods[i].0.precedes(&period)
            invariant
                0 <= i <= es.len(),
                es == self.periods@,
                forall|j: int| 0 <= j < i ==> period_lt(#[trigger] es[j].0, period),
            decreases es.len() - i,
        {
            i = i + 1;
        }
        proof {
            if i < es.len() {
                assert forall|j: int| i <= j < es.len() implies !period_lt(
                    #[trigger] es[j].0,
                    period,
                ) by {
                    if j > i {
                        assert(entry_periods(es)[i as int] == es[i as int].0);
                        assert(entry_periods(es)[j] == es[j].0);
                        lemma_period_order(es[i as int].0, es[j].0, period);
                    }
                }
            }
        }
        i
    }

    /// Whether an event was recorded in `period`.
    pub fn contains(&self, period: Period) -> (r: bool)
        requires
            self.wf(),
        ensures
            r == self@.contains_key(period),
    {
        let i = self.position(period);
        proof {
            if self@.contains_key(period) {
                let j = choose|j: int|
                    0 <= j < self.periods@.len() && (#[trigger] self.periods@[j]).0 == period;
                lemma_period_order(period, period, period);
                assert(j >= i);
                if j > i {
                    assert(entry_periods(self.periods@)[i as int] == self.periods@[i as int].0);
                    assert(entry_periods(self.periods@)[j] == self.periods@[j].0);
                    lemma_period_order(self.periods@[i as int].0, period, period);
                }
            }
            if i < self.periods@.len() && self.periods@[i as int].0 == period {
                assert(self.counts@.contains_key(self.periods@[i as int].0));
            }
        }
        i < self.periods.len() && self.periods[i].0 == period
    }

    /// The count of `counter` for `category` in `period`, which must have
    /// been recorded in.
    pub fn get(&self, period: Period, category: IssueCategory, counter: Counter) -> (r: i64)
        requires
            self.wf(),
            self@.contains_key(period),
        ensures
            r == self@[period][slot(category, counter)],
    {
        let i = self.position(period);
        proof {
            let j = choose|j: int|
                0 <= j < self.periods@.len() && (#[trigger] self.periods@[j]).0 == period;
            lemma_period_order(period, period, period);
            assert(j >= i);
            if j > i {
                assert(entry_periods(self.periods@)[i as int] == self.periods@[i as int].0);
                assert(entry_periods(self.periods@)[j] == self.periods@[j].0);
                lemma_period_order(self.periods@[i as int].0, period, period);
            }
        }
        self.periods[i].1.get(category, counter)
    }

    /// Records one event of `counter` for `category` in `period`, creating
    /// the period with zero counts if nothing was recorded in it yet.
    #[verifier::rlimit(40)]
    pub fn increment(&mut self, period: Period, category: IssueCategory, counter: Counter)
        requires
            old(self).wf(),
            old(self).events() < i64::MAX,
        ensures
            final(self).wf(),
            final(self)@ == add_one(old(self)@, period, slot(category, counter)),
            final(self).events() == old(self).events() + 1,
            final(self).strategy() == old(self).strategy(),
            well_shaped(final(self)@),
    {
        proof {
            self.lemma_view_counts();
        }
        let i = self.position(period);
        let ghost s = slot(category, counter);
        let ghost old_es = self.periods@;
        let ghost old_counts = self.counts@;
        if i < self.periods.len() && self.periods[i].0 == period {
            let mut entry = self.periods[i];
            proof {
                assert(entry_counts(old_es)[i as int] == entry.1@);
                lemma_count_le_sum(entry_counts(old_es), i as int, s);
            }
            entry.1.increment(category, counter);
            self.periods.set(i, entry);
            self.recorded = self.recorded + 1;
            self.counts = Ghost(old_counts.insert(period, entry.1@));
            proof {
                let es = self.periods@;
                assert(es == old_es.update(i as int, entry));
                assert(entry_periods(es) =~= entry_periods(old_es));
                assert(entry_counts(es) =~= entry_counts(old_es).update(i as int, entry.1@));
                lemma_sum_update(entry_counts(old_es), i as int, entry.1@);
                assert forall|j: int| 0 <= j < es.len() && j != i implies (#[trigger] es[j]).0
                    != period by {
                    assert(entry_periods(old_es)[j] == old_es[j].0);
                    assert(entry_periods(old_es)[i as int] == old_es[i as int].0);
                    lemma_period_order(old_es[j].0, old_es[j].0, old_es[j].0);
                }
                assert forall|p: Period| #[trigger] self.counts@.contains_key(p) implies exists|
                    j: int,
                |
                    0 <= j < es.len() && (#[trigger] es[j]).0 == p by {
                    if p == period {
                        assert(es[i as int].0 == p);
                    } else {
                        let j = choose|j: int| 0 <= j < old_es.len() && (#[trigger] old_es[j]).0 == p;
                        assert(es[j].0 == p);
                    }
                }
                assert(all_counts_nonneg(entry_counts(es)));
            }
        } else {
            let mut d = PeriodData::default();
            d.increment(category, counter);
            self.periods.insert(i, (period, d));
            self.recorded = self.recorded + 1;
            self.counts = Ghost(old_counts.insert(period, d@));
            proof {
                let es = self.periods@;
                assert(es == old_es.insert(i as int, (period, d)));
                assert(entry_periods(es) =~= entry_periods(old_es).insert(i as int, period));
                assert(entry_counts(es) =~= entry_counts(old_es).insert(i as int, d@));
                lemma_sum_insert(entry_counts(old_es), i as int, d@);
                assert forall|j: int| i <= j < old_es.len() implies period_lt(
                    period,
                    #[trigger] old_es[j].0,
                ) by {
                    assert(entry_periods(old_es)[j] == old_es[j].0);
                    assert(entry_periods(old_es)[i as int] == old_es[i as int].0);
                    lemma_period_order(old_es[i as int].0, old_es[j].0, period);
                    lemma_period_order(period, old_es[j].0, period);
                }
                assert(!old_counts.contains_key(period)) by {
                    if old_counts.contains_key(period) {
                        let j = choose|j: int|
                            0 <= j < old_es.len() && (#[trigger] old_es[j]).0 == period;
                        lemma_period_order(period, period, period);
                    }
                }
                assert(d@ == bump(zero_counts(), s));
                let ps = entry_periods(es);
                assert forall|a: int, b: int| 0 <= a < b < ps.len() implies period_lt(
                    ps[a],
                    ps[b],
                ) by {
                    let ops = entry_periods(old_es);
                    if b < i {
                        assert(ps[a] == ops[a] && ps[b] == ops[b]);
                    } else if b == i {
                        assert(ps[a] == old_es[a].0);
                    } else if a == i {
                        assert(ps[b] == old_es[b - 1].0);
                    } else if a < i {
                        assert(ps[a] == old_es[a].0);
                        assert(ps[b] == old_es[b - 1].0);
                        lemma_period_order(ps[a], period, ps[b]);
                    } else {
                        assert(ps[a] == ops[a - 1] && ps[b] == ops[b - 1]);
                    }
                }
                assert forall|j: int| 0 <= j < es.len() implies #[trigger] self.counts@.contains_key(
                    es[j].0,
                ) && self.counts@[es[j].0] == es[j].1@ by {
                    if j < i {
                        assert(es[j] == old_es[j]);
                        assert(period_lt(old_es[j].0, period));
                        lemma_period_order(period, period, period);
                        assert(old_counts.contains_key(old_es[j].0));
                    } else if j > i {
                        assert(es[j] == old_es[j - 1]);
                        assert(period_lt(period, old_es[j - 1].0));
                        lemma_period_order(period, period, period);
                        assert(old_counts.contains_key(old_es[j - 1].0));
                    } else {
                        assert(es[j] == (period, d));
                    }
                }
                assert forall|p: Period| #[trigger] self.counts@.contains_key(p) implies exists|
                    j: int,
                |
                    0 <= j < es.len() && (#[trigger] es[j]).0 == p by {
                    if p == period {
                        assert(es[i as int].0 == p);
                    } else {
                        let j = choose|j: int| 0 <= j < old_es.len() && (#[trigger] old_es[j]).0 == p;
                        if j < i {
                            assert(es[j].0 == p);
                        } else {
                            assert(es[j + 1].0 == p);
                        }
                    }
                }
                assert forall|j: int| 0 <= j < es.len() implies (#[trigger] es[j]).1@.len() == 6 by {
                    if j < i {
                        assert(es[j] == old_es[j]);
                    } else if j > i {
                        assert(es[j] == old_es[j - 1]);
                    }
                }
                assert(all_counts_nonneg(entry_counts(es))) by {
                    let ds = entry_counts(es);
                    let ods = entry_counts(old_es);
                    assert forall|j: int, t: int| 0 <= j < ds.len() && 0 <= t < 6 implies #[trigger] ds[j][t]
                        >= 0 by {
                        if j < i {
                            assert(ds[j] == ods[j]);
                        } else if j > i {
                            assert(ds[j] == ods[j - 1]);
                        }
                    }
                }
            }
        }
        proof {
            assert(self.counts@ == add_one(old_counts, period, s));
            assert(well_shaped(self.counts@));
        }
    }

    /// Records the events of each issue: its opening in the period it was
    /// created in, and its closing in the period it was closed in, if it was.
    /// Where an issue cannot be counted, nothing is recorded and the error of
    /// the first such issue is returned.
    pub fn analyze_issues(&mut self, issues: &[IssueNode]) -> (r: Result<(), AnalysisError>)
        requires
            old(self).wf(),
            old(self).events() + 2 * issues@.len() <= i64::MAX,
        ensures
            final(self).wf(),
            final(self).strategy() == old(self).strategy(),
            well_shaped(final(self)@),
            r is Ok <==> forall|i: int|
                0 <= i < issues@.len() ==> (#[trigger] issue_record(
                    issues@[i],
                    old(self).strategy(),
                )) is Some,
            r is Ok ==> final(self)@ == add_records(
                old(self)@,
                issue_records(issues@, old(self).strategy()),
            ) && final(self).events() == old(self).events() + records_events(
                issue_records(issues@, old(self).strategy()),
            ),
            r is Err ==> final(self)@ == old(self)@ && final(self).events() == old(self).events(),
    {
        let ghost strategy = self.strategy;
        let ghost start = self@;
        let ghost start_events = self.events();
        let mut recs: Vec<IssueRecord> = Vec::new();
        let mut i: usize = 0;
        while i < issues.len()
            invariant
                0 <= i <= issues@.len(),
                recs@.len() == i,
                strategy == self.strategy,
                self.wf(),
                self@ == start,
                self.events() == start_events,
                forall|j: int|
                    0 <= j < i ==> #[trigger] issue_record(issues@[j], strategy) == Some(recs@[j]),
            decreases issues@.len() - i,
        {
            match issues[i].record(&self.strategy) {
                Ok(rec) => recs.push(rec),
                Err(e) => {
                    proof {
                        self.lemma_view_counts();
                    }
                    return Err(e);
                },
            }
            i = i + 1;
        }
        let ghost all = issue_records(issues@, strategy);
        assert(recs@ =~= all);
        let mut k: usize = 0;
        while k < recs.len()
            invariant
                0 <= k <= recs@.len(),
                recs@ == all,
                all.len() == issues@.len(),
                start_events + 2 * issues@.len() <= i64::MAX,
                self.wf(),
                self.strategy() == strategy,
                self@ == add_records(start, all.subrange(0, k as int)),
                self.events() == start_events + records_events(all.subrange(0, k as int)),
                0 <= records_events(all.subrange(0, k as int)) <= 2 * k,
            decreases recs@.len() - k,
        {
            let rec = recs[k];
            proof {
                assert(all.subrange(0, k + 1).drop_last() =~= all.subrange(0, k as int));
            }
            self.increment(rec.opened, rec.category, Counter::Opened);
            match rec.closed {
                Some(p) => self.increment(p, rec.category, Counter::Closed),
                None => {},
            }
            k = k + 1;
        }
        assert(all.subrange(0, all.len() as int) =~= all);
        proof {
            self.lemma_view_counts();
        }
        Ok(())
    }

    /// The periods that events were recorded in, in ascending order.
    pub fn sorted_periods(&self) -> (r: Vec<Period>)
        requires
            self.wf(),
        ensures
            strictly_ascending(r@),
            forall|p: Period| self@.contains_key(p) <==> r@.contains(p),
    {
        let ghost es = self.periods@;
        let mut r: Vec<Period> = Vec::new();
        let mut i: usize = 0;
        while i < self.periods.len()
            invariant
                0 <= i <= es.len(),
                es == self.periods@,
                r@ == entry_periods(es).subrange(0, i as int),
            decreases es.len() - i,
        {
            r.push(self.periods[i].0);
            i = i + 1;
            assert(r@ =~= entry_periods(es).subrange(0, i as int));
        }
        assert(r@ =~= entry_periods(es));
        assert forall|p: Period| self@.contains_key(p) <==> r@.contains(p) by {
            if self@.contains_key(p) {
                let j = choose|j: int| 0 <= j < es.len() && (#[trigger] es[j]).0 == p;
                assert(r@[j] == p);
            }
            if r@.contains(p) {
                let j = choose|j: int| 0 <= j < r@.len() && r@[j] == p;
                assert(es[j].0 == p);
                assert(self.counts@.contains_key(es[j].0));
            }
        }
        r
    }

    /// One report row per period that events were recorded in, in ascending
    /// order of periods: the counts of the period, and for each category the
    /// running total of issues opened minus issues closed up to and including
    /// the period, with their sum. Totals are exact: they may go below zero.
    pub fn accumulate(&self) -> (r: Vec<PeriodReport>)
        requires
            self.wf(),
        ensures
            strictly_ascending(report_periods(r@)),
            forall|p: Period| self@.contains_key(p) <==> report_periods(r@).contains(p),
            forall|k: int, c: IssueCategory|
                0 <= k < r@.len() ==> (#[trigger] r@[k].opened.of(c)) == self@[r@[k].period][slot(c, Counter::Opened)],
            forall|k: int, c: IssueCategory|
                0 <= k < r@.len() ==> (#[trigger] r@[k].closed.of(c)) == self@[r@[k].period][slot(c, Counter::Closed)],
            forall|k: int, c: IssueCategory|
                0 <= k < r@.len() ==> (#[trigger] r@[k].open.of(c)) == open_running(self@, report_periods(r@), k + 1, c),
            forall|k: int|
                0 <= k < r@.len() ==> (#[trigger] r@[k]).open_total == r@[k].open.of(
                    IssueCategory::Bug,
                ) + r@[k].open.of(IssueCategory::Improvement) + r@[k].open.of(
                    IssueCategory::Uncategorized,
                ),
    {
        let ghost es = self.periods@;
        let ghost ps = entry_periods(es);
        let ghost ds = entry_counts(es);
        let ghost m = self@;
        let mut rows: Vec<PeriodReport> = Vec::new();
        let mut bug: i64 = 0;
        let mut improvement: i64 = 0;
        let mut uncategorized: i64 = 0;
        let mut i: usize = 0;
        while i < self.periods.len()
            invariant
                0 <= i <= es.len(),
                es == self.periods@,
                self.wf(),
                m == self@,
                ps == entry_periods(es),
                ds == entry_counts(es),
                report_periods(rows@) == ps.subrange(0, i as int),
                bug == open_running(m, ps, i as int, IssueCategory::Bug),
                improvement == open_running(m, ps, i as int, IssueCategory::Improvement),
                uncategorized == open_running(m, ps, i as int, IssueCategory::Uncategorized),
                abs(bug as int) + abs(improvement as int) + abs(uncategorized as int) <= sum_totals(
                    ds.subrange(0, i as int),
                ),
                forall|k: int, c: IssueCategory|
                    0 <= k < i ==> (#[trigger] rows@[k].opened.of(c)) == m[rows@[k].period][slot(c, Counter::Opened)],
                forall|k: int, c: IssueCategory|
                    0 <= k < i ==> (#[trigger] rows@[k].closed.of(c)) == m[rows@[k].period][slot(c, Counter::Closed)],
                forall|k: int, c: IssueCategory|
                    0 <= k < i ==> (#[trigger] rows@[k].open.of(c)) == open_running(m, ps, k + 1, c),
                forall|k: int|
                    0 <= k < i ==> (#[trigger] rows@[k]).open_total == rows@[k].open.of(
                        IssueCategory::Bug,
                    ) + rows@[k].open.of(IssueCategory::Improvement) + rows@[k].open.of(
                        IssueCategory::Uncategorized,
                    ),
            decreases es.len() - i,
        {
            let period = self.periods[i].0;
            let data = self.periods[i].1;
            proof {
                assert(ps[i as int] == period);
                assert(ds[i as int] == data@);
                assert(m.contains_key(es[i as int].0));
                assert(ds.subrange(0, i + 1).drop_last() =~= ds.subrange(0, i as int));
                lemma_prefix_le_sum(ds, i + 1);
                assert(data@.len() == 6);
                assert(ds[i as int][0] >= 0 && ds[i as int][1] >= 0 && ds[i as int][2] >= 0);
                assert(ds[i as int][3] >= 0 && ds[i as int][4] >= 0 && ds[i as int][5] >= 0);
            }
            let opened = CategoryCounts {
                bug: data.get(IssueCategory::Bug, Counter::Opened),
                improvement: data.get(IssueCategory::Improvement, Counter::Opened),
                uncategorized: data.get(IssueCategory::Uncategorized, Counter::Opened),
            };
            let closed = CategoryCounts {
                bug: data.get(IssueCategory::Bug, Counter::Closed),
                improvement: data.get(IssueCategory::Improvement, Counter::Closed),
                uncategorized: data.get(IssueCategory::Uncategorized, Counter::Closed),
            };
            bug = bug + opened.bug - closed.bug;
            improvement = improvement + opened.improvement - closed.improvement;
            uncategorized = uncategorized + opened.uncategorized - closed.uncategorized;
            let open = CategoryCounts { bug, improvement, uncategorized };
            let open_total = bug + improvement + uncategorized;
            let ghost prev = rows@;
            rows.push(PeriodReport { period, opened, closed, open, open_total });
            i = i + 1;
            proof {
                assert(report_periods(rows@) =~= report_periods(prev).push(period));
                assert(report_periods(rows@) =~= ps.subrange(0, i as int));
            }
        }
        assert(ps.subrange(0, es.len() as int) =~= ps);
        assert forall|p: Period| self@.contains_key(p) <==> report_periods(rows@).contains(p) by {
            if self@.contains_key(p) {
                let j = choose|j: int| 0 <= j < es.len() && (#[trigger] es[j]).0 == p;
                assert(ps[j] == p);
            }
            if report_periods(rows@).contains(p) {
                let j = choose|j: int| 0 <= j < ps.len() && ps[j] == p;
                assert(es[j].0 == p);
                assert(self.counts@.contains_key(es[j].0));
            }
        }
        rows
    }
}

} // verus!
