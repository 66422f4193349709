//! Instants and calendar days as plain integers, and the calls into
//! `chrono` that produce them.
//!
//! An instant is a [`Timestamp`]: whole seconds since 1970-01-01T00:00:00Z
//! plus the nanoseconds within that second. A calendar day is an
//! *epoch day*: the number of days since 1970-01-01 (negative before).
use vstd::prelude::*;

use chrono::Datelike;

verus! {

/// Seconds in a day.
pub const SECONDS_PER_DAY: i64 = 86_400;

/// First epoch day that `chrono` can represent (-262143-01-01).
pub const MIN_DAY: i64 = -96_465_292;

/// Last epoch day that `chrono` can represent (262142-12-31).
pub const MAX_DAY: i64 = 95_026_236;

/// First year that `chrono` represents.
pub const MIN_YEAR: i32 = -262_143;

/// Last year that `chrono` represents.
pub const MAX_YEAR: i32 = 262_142;

/// First second that `chrono` can represent.
pub const MIN_UTC_SECS: i64 = -8_334_601_228_800;

/// Last second that `chrono` can represent.
pub const MAX_UTC_SECS: i64 = 8_210_266_876_799;

/// An instant: seconds since the Unix epoch, and nanoseconds within that
/// second. Instants are ordered by `(secs, nanos)`.
#[derive(Debug, Clone, Copy, PartialEq, Eq, Hash, Structural)]
pub struct Timestamp {
    pub secs: i64,
    pub nanos: u32,
}

impl Timestamp {
    /// `self` is at or before `other`.
    pub open spec fn at_or_before(self, other: Timestamp) -> bool {
        ||| self.secs < other.secs
        ||| (self.secs == other.secs && self.nanos <= other.nanos)
    }

    /// `self` is strictly after `other`.
    pub fn is_after(&self, other: &Timestamp) -> (r: bool)
        ensures
            r == !self.at_or_before(*other),
    {
        self.secs > other.secs || (self.secs == other.secs && self.nanos > other.nanos)
    }

    /// Epoch day on which the instant falls (UTC).
    pub open spec fn spec_day(self) -> int {
        day_of_secs(self.secs as int)
    }

    /// Epoch day on which the instant falls (UTC).
    pub fn day(&self) -> (d: i64)
        ensures
            d == self.spec_day(),
    {
        day_of(self.secs)
    }
}

/// Epoch day containing second `secs` (floor division by a day).
pub open spec fn day_of_secs(secs: int) -> int {
    secs / (SECONDS_PER_DAY as int)
}

/// Epoch day containing second `secs`.
pub fn day_of(secs: i64) -> (d: i64)
    ensures
        d == day_of_secs(secs as int),
        d * SECONDS_PER_DAY <= secs < d * SECONDS_PER_DAY + SECONDS_PER_DAY,
{
    let d = match secs.checked_div_euclid(SECONDS_PER_DAY) {
        Some(q) => q,
        None => 0,
    };
    proof {
        let x = secs as int;
        assert(x / 86400 * 86400 <= x < x / 86400 * 86400 + 86400) by (nonlinear_arith);
    }
    d
}

/// Weekday of an epoch day, counted from Monday (0) to Sunday (6).
/// 1970-01-01 was a Thursday.
pub open spec fn weekday_from_monday(day: int) -> int {
    (day + 3) % 7
}

/// `Utc::now()`, as whole seconds since the epoch. What the clock says is
/// not stated; `Utc::now` panics on a clock before 1970 and can only
/// return instants that `chrono` represents, hence the range.
#[verifier::external_body]
pub(crate) fn now_secs() -> (r: i64)
    ensures
        0 <= r <= MAX_UTC_SECS,
{
    chrono::Utc::now().timestamp()
}

/// A parsed `(seconds, nanoseconds)` pair as a [`Timestamp`].
pub open spec fn as_timestamp(p: Option<(i64, u32)>) -> Option<Timestamp> {
    match p {
        Some(v) => Some(Timestamp { secs: v.0, nanos: v.1 }),
        None => None,
    }
}

/// What `chrono::NaiveDateTime::parse_from_str(s, fmt)` yields, read as
/// a UTC instant `(seconds, nanoseconds)`; `None` when it fails.
pub uninterp spec fn naive_parse(s: Seq<char>, fmt: Seq<char>) -> Option<(i64, u32)>;

/// What `chrono::DateTime::parse_from_rfc3339(s)` yields, converted to
/// UTC `(seconds, nanoseconds)`; `None` when it fails.
pub uninterp spec fn rfc3339_parse(s: Seq<char>) -> Option<(i64, u32)>;

/// `NaiveDateTime::parse_from_str(s, fmt)`, read as UTC. The grammar of
/// the format strings is chrono's and is not restated: the result is
/// named.
#[verifier::external_body]
pub(crate) fn parse_naive_utc(s: &str, fmt: &str) -> (r: Option<Timestamp>)
    ensures
        r == as_timestamp(naive_parse(s@, fmt@)),
{
    match chrono::NaiveDateTime::parse_from_str(s, fmt) {
        Ok(n) => {
            let t = n.and_utc();
            Some(Timestamp { secs: t.timestamp(), nanos: t.timestamp_subsec_nanos() })
        },
        Err(_) => None,
    }
}

/// `DateTime::parse_from_rfc3339(s)` converted to UTC; the RFC 3339
/// grammar is chrono's and is not restated: the result is named.
#[verifier::external_body]
pub(crate) fn parse_rfc3339_utc(s: &str) -> (r: Option<Timestamp>)
    ensures
        r == as_timestamp(rfc3339_parse(s@)),
{
    match chrono::DateTime::parse_from_rfc3339(s) {
        Ok(t) => Some(Timestamp { secs: t.timestamp(), nanos: t.timestamp_subsec_nanos() }),
        Err(_) => None,
    }
}

/// The `(year, month)` of an epoch day in the proleptic Gregorian
/// calendar. Days are counted in 400-year eras of 146097 days that start
/// on a 1st of March (so that the leap day ends the year): `doe` is the
/// day within the era, `yoe` the year within it, `doy` the day within
/// that year, and `mp` its month counted from March.
pub open spec fn civil_month(day: int) -> (int, int) {
    let z = day + 719468;
    let era = z / 146097;
    let doe = z - era * 146097;
    let yoe = (doe - doe / 1460 + doe / 36524 - doe / 146096) / 365;
    let doy = doe - (365 * yoe + yoe / 4 - yoe / 100);
    let mp = (5 * doy + 2) / 153;
    let m = if mp < 10 { mp + 3 } else { mp - 9 };
    (yoe + era * 400 + if m <= 2 { 1int } else { 0int }, m)
}

/// `NaiveDate::from_epoch_days` and the date's year and month: a date in
/// `chrono`'s range exists, and its year and month are those of the
/// proleptic Gregorian calendar (see [`civil_month`]).
#[verifier::external_body]
fn epoch_day_month(day: i32) -> (r: Option<(i32, u32)>)
    ensures
        MIN_DAY <= day <= MAX_DAY ==> r is Some,
        r matches Some(ym) ==> ym.0 == civil_month(day as int).0 && ym.1 == civil_month(day as int).1,
        r matches Some(ym) ==> 1 <= ym.1 <= 12,
        r matches Some(ym) ==> MIN_YEAR <= ym.0 <= MAX_YEAR,
{
    match chrono::NaiveDate::from_epoch_days(day) {
        Some(d) => Some((d.year(), d.month())),
        None => None,
    }
}

/// The `(year, month)` of epoch day `day`.
pub fn month_of_day(day: i64) -> (r: (i32, u32))
    requires
        MIN_DAY <= day <= MAX_DAY,
    ensures
        r.0 == civil_month(day as int).0,
        r.1 == civil_month(day as int).1,
        1 <= r.1 <= 12,
        MIN_YEAR <= r.0 <= MAX_YEAR,
{
    match epoch_day_month(day as i32) {
        Some(ym) => ym,
        None => (1970, 1),
    }
}

} // verus!
