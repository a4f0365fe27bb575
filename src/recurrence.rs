use crate::time::SECS_PER_DAY;
use vstd::prelude::*;

verus! {

/// The longest span a recurrence may cover, in whole days: the range of
/// chrono's `TimeDelta`, `i64::MAX` milliseconds.
pub const MAX_SPAN_DAYS: i64 = 106_751_991_167;

/// The unit of a recurrence interval, written as the last character of the
/// interval (`d`, `w`, `m`).
#[derive(Clone, Copy, Debug, PartialEq, Eq, Structural)]
pub enum Unit {
    Day,
    Week,
    Month,
}

/// Days in one unit. A month counts as 31 days.
pub open spec fn unit_days(u: Unit) -> int {
    match u {
        Unit::Day => 1,
        Unit::Week => 7,
        Unit::Month => 31,
    }
}

/// A recurrence interval: `count` units.
#[derive(Clone, Copy, Debug, PartialEq, Eq, Structural)]
pub struct Interval {
    pub count: i64,
    pub unit: Unit,
}

/// Days that an interval spans.
pub open spec fn span_days(i: Interval) -> int {
    i.count * unit_days(i.unit)
}

/// A usable interval: positive, and no longer than chrono's span limit.
pub open spec fn interval_wf(i: Interval) -> bool {
    0 < i.count && span_days(i) <= MAX_SPAN_DAYS
}

/// Seconds that an interval spans.
pub open spec fn span_secs(i: Interval) -> int {
    span_days(i) * SECS_PER_DAY
}

impl Interval {
    /// The seconds that the interval spans.
    pub fn seconds(&self) -> (r: i64)
        requires
            interval_wf(*self),
        ensures
            r == span_secs(*self),
            0 < r <= MAX_SPAN_DAYS * SECS_PER_DAY,
    {
        let days: i64 = match self.unit {
            Unit::Day => 1,
            Unit::Week => 7,
            Unit::Month => 31,
        };
        assert(0 < self.count * days <= MAX_SPAN_DAYS) by (nonlinear_arith)
            requires
                0 < self.count,
                0 < days,
                self.count * days <= MAX_SPAN_DAYS,
        ;
        self.count * days * SECS_PER_DAY
    }
}

pub open spec fn is_digit(c: char) -> bool {
    '0' <= c && c <= '9'
}

pub open spec fn all_digits(s: Seq<char>) -> bool {
    forall|k: int| 0 <= k < s.len() ==> is_digit(#[trigger] s[k])
}

/// The number written in decimal by the digits `s`.
pub open spec fn digits_value(s: Seq<char>) -> int
    decreases s.len(),
{
    if s.len() == 0 {
        0
    } else {
        digits_value(s.drop_last()) * 10 + (s.last() as int - '0' as int)
    }
}

pub open spec fn unit_of(c: char) -> Option<Unit> {
    if c == 'd' {
        Some(Unit::Day)
    } else if c == 'w' {
        Some(Unit::Week)
    } else if c == 'm' {
        Some(Unit::Month)
    } else {
        None
    }
}

/// The interval written as `s`: one or more decimal digits, then `d`, `w` or
/// `m`; `None` where `s` has another shape or gives no usable interval.
pub open spec fn interval_of(s: Seq<char>) -> Option<Interval> {
    if s.len() >= 2 && all_digits(s.drop_last()) && unit_of(s.last()) is Some {
        let n = digits_value(s.drop_last());
        let u = unit_of(s.last())->0;
        if 0 < n && n * unit_days(u) <= MAX_SPAN_DAYS {
            Some(Interval { count: n as i64, unit: u })
        } else {
            None
        }
    } else {
        None
    }
}

proof fn lemma_digits_value_nonneg(s: Seq<char>)
    requires
        all_digits(s),
    ensures
        digits_value(s) >= 0,
    decreases s.len(),
{
    if s.len() > 0 {
        assert(all_digits(s.drop_last()));
        lemma_digits_value_nonneg(s.drop_last());
        assert(is_digit(s[s.len() - 1]));
    }
}

/// A longer run of digits never spells a smaller number.
proof fn lemma_digits_value_grows(s: Seq<char>, i: int)
    requires
        all_digits(s),
        0 <= i <= s.len(),
    ensures
        digits_value(s.take(i)) <= digits_value(s),
    decreases s.len() - i,
{
    if i < s.len() {
        lemma_digits_value_grows(s, i + 1);
        assert(s.take(i + 1).drop_last() =~= s.take(i));
        assert(all_digits(s.take(i)));
        lemma_digits_value_nonneg(s.take(i));
        assert(is_digit(s[i]));
    } else {
        assert(s.take(i) =~= s);
    }
}

/// Reads an interval such as `10d`, `2w` or `1m`.
pub fn parse_interval(s: &str) -> (r: Option<Interval>)
    ensures
        r == interval_of(s@),
        r matches Some(i) ==> interval_wf(i),
{
    let len = s.unicode_len();
    if len < 2 {
        return None;
    }
    let unit = match s.get_char(len - 1) {
        'd' => Unit::Day,
        'w' => Unit::Week,
        'm' => Unit::Month,
        _ => {
            return None;
        },
    };
    let ghost digits = s@.drop_last();
    let mut value: i64 = 0;
    let mut i: usize = 0;
    while i < len - 1
        invariant
            len == s@.len(),
            digits == s@.drop_last(),
            0 <= i <= len - 1,
            all_digits(digits.take(i as int)),
            value == digits_value(digits.take(i as int)),
            0 <= value <= MAX_SPAN_DAYS,
        decreases len - 1 - i,
    {
        let c = s.get_char(i);
        if !('0' <= c && c <= '9') {
            assert(!is_digit(digits[i as int]));
            return None;
        }
        assert(digits.take(i as int + 1).drop_last() =~= digits.take(i as int));
        value = value * 10 + (c as i64 - '0' as i64);
        i = i + 1;
        assert(all_digits(digits.take(i as int)));
        if value > MAX_SPAN_DAYS {
            proof {
                if all_digits(digits) {
                    lemma_digits_value_grows(digits, i as int);
                }
            }
            return None;
        }
    }
    assert(digits.take(len - 1) =~= digits);
    if value == 0 {
        return None;
    }
    let days: i64 = match unit {
        Unit::Day => 1,
        Unit::Week => 7,
        Unit::Month => 31,
    };
    if value > MAX_SPAN_DAYS / days {
        assert(value * days > MAX_SPAN_DAYS) by (nonlinear_arith)
            requires
                value > MAX_SPAN_DAYS / days,
                days > 0,
        ;
        return None;
    }
    assert(value * days <= MAX_SPAN_DAYS) by (nonlinear_arith)
        requires
            value <= MAX_SPAN_DAYS / days,
            days > 0,
    ;
    Some(Interval { count: value, unit })
}

} // verus!
