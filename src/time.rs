use chrono::Datelike;
use vstd::prelude::*;

verus! {

/// Seconds in one day.
pub const SECS_PER_DAY: i64 = 86400;

/// An instant in UTC: whole seconds since the Unix epoch and the nanoseconds
/// within that second.
#[derive(Clone, Copy, Debug, PartialEq, Eq, Structural)]
pub struct Timestamp {
    pub secs: i64,
    pub nanos: u32,
}

/// `a` lies strictly before `b`.
pub open spec fn ts_lt(a: Timestamp, b: Timestamp) -> bool {
    a.secs < b.secs || (a.secs == b.secs && a.nanos < b.nanos)
}

/// Order on optional instants: an absent instant comes before every present one.
pub open spec fn opt_lt(a: Option<Timestamp>, b: Option<Timestamp>) -> bool {
    match (a, b) {
        (None, Some(_)) => true,
        (Some(x), Some(y)) => ts_lt(x, y),
        _ => false,
    }
}

/// Seconds elapsed since midnight of the instant's day.
pub open spec fn second_of_day(secs: int) -> int {
    secs % (SECS_PER_DAY as int)
}

/// Day of the month (1 to 31) in the proleptic Gregorian calendar of the day
/// that holds the instant `secs`.
pub open spec fn day_of_month(secs: int) -> int {
    let z = secs / (SECS_PER_DAY as int) + 719468;
    let era = z / 146097;
    let doe = z - era * 146097;
    let yoe = (doe - doe / 1460 + doe / 36524 - doe / 146096) / 365;
    let doy = doe - (365 * yoe + yoe / 4 - yoe / 100);
    let mp = (5 * doy + 2) / 153;
    doy - (153 * mp + 2) / 5 + 1
}

/// The first day of the month of instant `secs`, at the same time of day, as
/// chrono's `with_day(1)` computes it; `None` where chrono cannot represent it.
pub uninterp spec fn month_start_of(secs: int, nanos: int) -> Option<int>;

impl Timestamp {
    pub fn new(secs: i64, nanos: u32) -> (r: Timestamp)
        ensures
            r.secs == secs,
            r.nanos == nanos,
    {
        Timestamp { secs, nanos }
    }

    /// Whether `self` lies strictly before `other`.
    pub fn before(&self, other: &Timestamp) -> (r: bool)
        ensures
            r == ts_lt(*self, *other),
    {
        self.secs < other.secs || (self.secs == other.secs && self.nanos < other.nanos)
    }
}

/// Whether `a` comes before `b`, an absent instant before every present one.
pub fn opt_before(a: &Option<Timestamp>, b: &Option<Timestamp>) -> (r: bool)
    ensures
        r == opt_lt(*a, *b),
{
    match (a, b) {
        (None, Some(_)) => true,
        (Some(x), Some(y)) => x.before(y),
        _ => false,
    }
}

/// Relies on chrono's `Utc::now`: the current time of the system clock.
#[verifier::external_body]
pub(crate) fn now() -> (r: Timestamp) {
    let t = chrono::Utc::now();
    Timestamp { secs: t.timestamp(), nanos: t.timestamp_subsec_nanos() }
}

/// Relies on chrono's `DateTime::from_timestamp` and `Datelike::with_day`:
/// the instant moved back to day 1 of its month, time of day and nanoseconds
/// kept; `None` where chrono cannot represent the instant.
#[verifier::external_body]
pub(crate) fn month_start(t: Timestamp) -> (r: Option<i64>)
    ensures
        r is Some <==> month_start_of(t.secs as int, t.nanos as int) is Some,
        r matches Some(v) ==> {
            &&& month_start_of(t.secs as int, t.nanos as int) == Some(v as int)
            &&& v <= t.secs
            &&& t.secs - v < 31 * SECS_PER_DAY
            &&& second_of_day(v as int) == second_of_day(t.secs as int)
            &&& day_of_month(v as int) == 1
        },
{
    let d = chrono::DateTime::from_timestamp(t.secs, t.nanos)?;
    d.with_day(1).map(|v| v.timestamp())
}

} // verus!
