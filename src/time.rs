//! Instants, reporting periods, and the strategies that put instants into periods.

use vstd::prelude::*;
use chrono::Datelike;

verus! {

/// The earliest instant a `Timestamp` holds, in seconds since the Unix epoch:
/// a day before 0000-01-01T00:00:00Z.
pub const MIN_UNIX_SECONDS: i64 = -62_167_305_600;

/// The latest instant a `Timestamp` holds, in seconds since the Unix epoch:
/// a day after 9999-12-31T23:59:59Z.
pub const MAX_UNIX_SECONDS: i64 = 253_402_387_200;

/// Seconds in a week.
pub const WEEK_SECONDS: i64 = 604_800;

/// An instant, as whole seconds since 1970-01-01T00:00:00Z. It spans every
/// instant that an RFC 3339 date and time can write.
#[derive(Debug, Clone, Copy, PartialEq, Eq, Hash, Structural)]
pub struct Timestamp {
    secs: i64,
}

/// Why a text did not give a `Timestamp`.
#[derive(Debug, Clone, Copy, PartialEq, Eq, Structural)]
pub enum TimestampError {
    /// The text is no RFC 3339 date and time.
    Malformed,
    /// The instant lies outside the span a `Timestamp` holds.
    OutOfRange,
}

pub open spec fn in_timestamp_range(secs: int) -> bool {
    MIN_UNIX_SECONDS <= secs <= MAX_UNIX_SECONDS
}

/// The UTC calendar year and month (1 to 12) of an instant given in seconds
/// since the Unix epoch.
pub uninterp spec fn utc_year_month(secs: int) -> (int, int);

/// The instant, in seconds since the Unix epoch, that an RFC 3339 text
/// stands for, or `None` where the text is not RFC 3339.
pub uninterp spec fn rfc3339_instant(text: Seq<char>) -> Option<int>;

/// Relies on `chrono::DateTime::<Utc>::from_timestamp` and `Datelike::year` /
/// `Datelike::month`: the UTC calendar year and month of an instant. The
/// instant is always in range for years 0 through 9999, and `month` counts
/// from 1 to 12.
#[verifier::external_body]
fn calendar_year_month(secs: i64) -> (r: Option<(i32, u32)>)
    ensures
        in_timestamp_range(secs as int) ==> r is Some,
        r matches Some(ym) ==> (ym.0 as int, ym.1 as int) == utc_year_month(secs as int) && 1
            <= ym.1 <= 12,
{
    match chrono::DateTime::from_timestamp(secs, 0) {
        Some(d) => Some((d.year(), d.month())),
        None => None,
    }
}

/// Relies on `chrono::DateTime::parse_from_rfc3339` and `DateTime::timestamp`:
/// the instant an RFC 3339 text stands for, or `None` where the parse fails.
#[verifier::external_body]
fn parse_rfc3339_seconds(text: &str) -> (r: Option<i64>)
    ensures
        r matches Some(t) ==> rfc3339_instant(text@) == Some(t as int),
        r is None ==> rfc3339_instant(text@) is None,
{
    match chrono::DateTime::parse_from_rfc3339(text) {
        Ok(d) => Some(d.timestamp()),
        Err(_) => None,
    }
}

impl View for Timestamp {
    type V = int;

    closed spec fn view(&self) -> int {
        self.secs as int
    }
}

impl Timestamp {
    #[verifier::type_invariant]
    spec fn in_range(self) -> bool {
        in_timestamp_range(self.secs as int)
    }

    /// The instant `secs` seconds after the Unix epoch; `None` outside the
    /// span a `Timestamp` holds.
    pub fn from_unix_seconds(secs: i64) -> (r: Option<Timestamp>)
        ensures
            in_timestamp_range(secs as int) <==> r is Some,
            r matches Some(t) ==> t@ == secs,
    {
        if MIN_UNIX_SECONDS <= secs && secs <= MAX_UNIX_SECONDS {
            Some(Timestamp { secs })
        } else {
            None
        }
    }

    /// Seconds since the Unix epoch.
    pub fn unix_seconds(&self) -> (r: i64)
        ensures
            r == self@,
            in_timestamp_range(r as int),
    {
        proof {
            use_type_invariant(self);
        }
        self.secs
    }

    /// Reads an RFC 3339 date and time, such as `2023-07-14T09:30:00Z`.
    pub fn parse_rfc3339(text: &str) -> (r: Result<Timestamp, TimestampError>)
        ensures
            rfc3339_instant(text@) is None ==> r == Err::<Timestamp, TimestampError>(
                TimestampError::Malformed,
            ),
            rfc3339_instant(text@) matches Some(t) ==> (if in_timestamp_range(t) {
                r matches Ok(ts) && ts@ == t
            } else {
                r == Err::<Timestamp, TimestampError>(TimestampError::OutOfRange)
            }),
    {
        match parse_rfc3339_seconds(text) {
            None => Err(TimestampError::Malformed),
            Some(secs) => match Timestamp::from_unix_seconds(secs) {
                Some(t) => Ok(t),
                None => Err(TimestampError::OutOfRange),
            },
        }
    }
}

/// A reporting bucket: a week counted from an origin, or a calendar month.
/// Periods of one kind order as time does; every week comes before every
/// month, so that periods of two kinds, mixed by mistake, still order totally.
#[derive(Debug, Clone, Copy, PartialEq, Eq, Hash, PartialOrd, Ord, Structural)]
pub enum Period {
    Week { index: i64 },
    Month { year: i32, month: u32 },
}

/// `a` comes strictly before `b`.
pub open spec fn period_lt(a: Period, b: Period) -> bool {
    match (a, b) {
        (Period::Week { index: x }, Period::Week { index: y }) => x < y,
        (Period::Week { .. }, Period::Month { .. }) => true,
        (Period::Month { .. }, Period::Week { .. }) => false,
        (Period::Month { year: y1, month: m1 }, Period::Month { year: y2, month: m2 }) => y1 < y2
            || (y1 == y2 && m1 < m2),
    }
}

impl Period {
    /// Whether `self` comes strictly before `other`.
    pub fn precedes(&self, other: &Period) -> (r: bool)
        ensures
            r == period_lt(*self, *other),
    {
        match (self, other) {
            (Period::Week { index: x }, Period::Week { index: y }) => *x < *y,
            (Period::Week { .. }, Period::Month { .. }) => true,
            (Period::Month { .. }, Period::Week { .. }) => false,
            (Period::Month { year: y1, month: m1 }, Period::Month { year: y2, month: m2 }) => *y1
                < *y2 || (*y1 == *y2 && *m1 < *m2),
        }
    }
}

/// How instants are put into periods. One strategy holds for a whole run.
#[derive(Debug, Clone, Copy, PartialEq, Eq, Structural)]
pub enum PeriodStrategy {
    /// Zero-based weeks of seven days counted from `origin`; instants before
    /// it fall into negative weeks.
    Weekly { origin: Timestamp },
    /// Calendar months in UTC.
    Monthly,
}

/// The week, counted from `origin`, that holds the instant `secs`.
pub open spec fn week_index(origin: int, secs: int) -> int {
    (secs - origin) / (WEEK_SECONDS as int)
}

/// The period that holds instant `t` under `strategy`.
pub open spec fn period_of(strategy: PeriodStrategy, t: Timestamp) -> Period {
    match strategy {
        PeriodStrategy::Weekly { origin } => Period::Week { index: week_index(origin@, t@) as i64 },
        PeriodStrategy::Monthly => Period::Month {
            year: utc_year_month(t@).0 as i32,
            month: utc_year_month(t@).1 as u32,
        },
    }
}

/// Floor division of `n` by a week.
fn floor_weeks(n: i64) -> (r: i64)
    requires
        -2 * MAX_UNIX_SECONDS <= n <= 2 * MAX_UNIX_SECONDS,
    ensures
        r == n as int / (WEEK_SECONDS as int),
{
    if n >= 0 {
        let q: u64 = (n as u64) / (WEEK_SECONDS as u64);
        q as i64
    } else {
        let m: u64 = (0 - n) as u64;
        let q: u64 = (m + (WEEK_SECONDS as u64 - 1)) / (WEEK_SECONDS as u64);
        proof {
            let w = WEEK_SECONDS as int;
            let mi = m as int;
            assert(mi > 0);
            assert(((mi + w - 1) / w) * w >= mi && ((mi + w - 1) / w - 1) * w < mi) by (nonlinear_arith)
                requires w == 604800, mi > 0;
            assert((0 - (mi + w - 1) / w) * w <= 0 - mi && (0 - (mi + w - 1) / w + 1) * w > 0 - mi) by (nonlinear_arith)
                requires ((mi + w - 1) / w) * w >= mi, ((mi + w - 1) / w - 1) * w < mi;
            vstd::arithmetic::div_mod::lemma_fundamental_div_mod_converse(
                n as int, w, 0 - (mi + w - 1) / w, n as int - (0 - (mi + w - 1) / w) * w);
        }
        0 - (q as i64)
    }
}

impl PeriodStrategy {
    /// The period that holds instant `t`.
    pub fn period_of(&self, t: Timestamp) -> (r: Period)
        ensures
            r == period_of(*self, t),
            r matches Period::Month { month, .. } ==> 1 <= month <= 12,
    {
        proof {
            use_type_invariant(&t);
        }
        match self {
            PeriodStrategy::Weekly { origin } => {
                proof {
                    use_type_invariant(origin);
                }
                let d: i64 = t.secs - origin.secs;
                Period::Week { index: floor_weeks(d) }
            },
            PeriodStrategy::Monthly => {
                match calendar_year_month(t.secs) {
                    Some(ym) => Period::Month { year: ym.0, month: ym.1 },
                    // never taken: every Timestamp lies in chrono's range
                    None => Period::Month { year: 0, month: 1 },
                }
            },
        }
    }
}

/// Weekly periods follow time: a later instant never falls into an earlier
/// week, and two instants in one week are less than a week apart.
pub proof fn lemma_weeks_follow_time(origin: Timestamp, s: Timestamp, t: Timestamp)
    requires
        s@ <= t@,
    ensures
        week_index(origin@, s@) <= week_index(origin@, t@),
        week_index(origin@, s@) == week_index(origin@, t@) ==> t@ - s@ < WEEK_SECONDS,
{
    let w = WEEK_SECONDS as int;
    vstd::arithmetic::div_mod::lemma_div_is_ordered(s@ - origin@, t@ - origin@, w);
    vstd::arithmetic::div_mod::lemma_fundamental_div_mod(s@ - origin@, w);
    vstd::arithmetic::div_mod::lemma_fundamental_div_mod(t@ - origin@, w);
}

} // verus!
