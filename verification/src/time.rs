//! Points in time and spans of time.

use vstd::prelude::*;

use crate::text;

verus! {

/// The first second, counted from the start of 1970, that has no timestamp: the
/// year 10000 does not fit the format.
pub const TIMESTAMP_END: u64 = 253_402_300_800;

/// A span of time.
#[derive(Debug, Clone, Copy, PartialEq, Eq, Structural)]
pub struct Duration {
    pub secs: u64,
    /// Below one thousand million.
    pub nanos: u32,
}

impl Duration {
    /// A span of whole seconds.
    pub fn from_secs(secs: u64) -> (r: Duration)
        ensures
            r == (Duration { secs, nanos: 0 }),
    {
        Duration { secs, nanos: 0 }
    }

    /// A span of whole milliseconds.
    pub fn from_millis(millis: u64) -> (r: Duration)
        ensures
            r.secs == millis / 1000,
            r.nanos == millis % 1000 * 1_000_000,
    {
        let rest: u32 = (millis % 1000) as u32;
        Duration { secs: millis / 1000, nanos: rest * 1_000_000 }
    }

    /// Whether the span is empty.
    pub fn is_zero(&self) -> (r: bool)
        ensures
            r == (self.secs == 0 && self.nanos == 0),
    {
        self.secs == 0 && self.nanos == 0
    }
}

/// A year of 366 days.
pub open spec fn is_leap(year: nat) -> bool {
    year % 4 == 0 && (year % 100 != 0 || year % 400 == 0)
}

/// How many days month `month` of `year` has.
pub open spec fn month_length(year: nat, month: nat) -> nat {
    if month == 2 {
        if is_leap(year) {
            29
        } else {
            28
        }
    } else if month == 4 || month == 6 || month == 9 || month == 11 {
        30
    } else {
        31
    }
}

/// A day of the calendar.
pub open spec fn is_date(year: nat, month: nat, day: nat) -> bool {
    1970 <= year && 1 <= month <= 12 && 1 <= day <= month_length(year, month)
}

/// The days from the start of 1970 to the start of `year`.
pub open spec fn days_before_year(year: nat) -> nat
    decreases year,
{
    if year <= 1970 {
        0
    } else {
        days_before_year((year - 1) as nat) + if is_leap((year - 1) as nat) {
            366nat
        } else {
            365nat
        }
    }
}

/// The days from the start of `year` to the start of its month `month`.
pub open spec fn days_before_month(year: nat, month: nat) -> nat
    decreases month,
{
    if month <= 1 {
        0
    } else {
        days_before_month(year, (month - 1) as nat) + month_length(year, (month - 1) as nat)
    }
}

/// The days from the start of 1970 to the start of a date.
pub open spec fn day_number(year: nat, month: nat, day: nat) -> nat {
    (days_before_year(year) + days_before_month(year, month) + day - 1) as nat
}

/// The date on which the day with number `days` falls.
pub open spec fn date_of(days: nat) -> (nat, nat, nat) {
    choose|date: (nat, nat, nat)| #[trigger]
        is_date(date.0, date.1, date.2) && day_number(date.0, date.1, date.2) == days
}

/// `n`, below one hundred, in two digits.
pub open spec fn two_digits(n: nat) -> Seq<char> {
    seq![text::digit(n / 10 % 10), text::digit(n % 10)]
}

/// The UTC time `secs` seconds after the start of 1970, such as
/// `2018-02-14T00:28:07Z`.
pub open spec fn rfc3339(secs: nat) -> Seq<char> {
    let date = date_of(secs / 86400);
    let rest = secs % 86400;
    two_digits(date.0 / 100) + two_digits(date.0 % 100) + seq!['-'] + two_digits(date.1)
        + seq!['-'] + two_digits(date.2) + seq!['T'] + two_digits(rest / 3600) + seq![':']
        + two_digits(rest / 60 % 60) + seq![':'] + two_digits(rest % 60) + seq!['Z']
}

/// `humantime::format_rfc3339_seconds` writes a point in time as the UTC date and
/// time of day, to the second. It has no text for a time from the year 10000 on.
#[verifier::external_body]
fn format_seconds(secs: u64) -> (r: String)
    requires
        secs < TIMESTAMP_END,
    ensures
        r@ == rfc3339(secs as nat),
{
    let at = std::time::UNIX_EPOCH + std::time::Duration::from_secs(secs);
    humantime::format_rfc3339_seconds(at).to_string()
}

/// The UTC time `secs` seconds after the start of 1970, as text.
pub fn timestamp(secs: u64) -> (r: String)
    requires
        secs < TIMESTAMP_END,
    ensures
        r@ == rfc3339(secs as nat),
{
    format_seconds(secs)
}

proof fn year_spans(year: nat, month: nat, day: nat)
    requires
        is_date(year, month, day),
    ensures
        days_before_year(year) <= day_number(year, month, day) < days_before_year(year + 1),
{
    reveal_with_fuel(days_before_month, 13);
    assert(days_before_year(year + 1) == days_before_year(year) + if is_leap(year) {
        366nat
    } else {
        365nat
    });
}

proof fn years_grow(a: nat, b: nat)
    requires
        1970 <= a <= b,
    ensures
        days_before_year(a) <= days_before_year(b),
    decreases b - a,
{
    if a < b {
        years_grow(a, (b - 1) as nat);
    }
}

proof fn months_grow(year: nat, a: nat, b: nat)
    requires
        1 <= a < b,
    ensures
        days_before_month(year, a) + month_length(year, a) <= days_before_month(year, b),
    decreases b - a,
{
    if a < b - 1 {
        months_grow(year, a, (b - 1) as nat);
    }
}

/// No two dates have the same day number.
pub proof fn date_is_unique(
    year: nat,
    month: nat,
    day: nat,
    other_year: nat,
    other_month: nat,
    other_day: nat,
)
    requires
        is_date(year, month, day),
        is_date(other_year, other_month, other_day),
        day_number(year, month, day) == day_number(other_year, other_month, other_day),
    ensures
        year == other_year,
        month == other_month,
        day == other_day,
{
    year_spans(year, month, day);
    year_spans(other_year, other_month, other_day);
    if year < other_year {
        years_grow(year + 1, other_year);
    } else if other_year < year {
        years_grow(other_year + 1, year);
    } else if month < other_month {
        months_grow(year, month, other_month);
    } else if other_month < month {
        months_grow(year, other_month, month);
    }
}

proof fn date_exists(days: nat)
    ensures
        exists|date: (nat, nat, nat)| #[trigger]
            is_date(date.0, date.1, date.2) && day_number(date.0, date.1, date.2) == days,
    decreases days,
{
    if days == 0 {
        let date = (1970nat, 1nat, 1nat);
        assert(is_date(date.0, date.1, date.2));
        assert(day_number(date.0, date.1, date.2) == 0);
    } else {
        date_exists((days - 1) as nat);
        let prev = date_of((days - 1) as nat);
        assert(is_date(prev.0, prev.1, prev.2));
        let next = if prev.2 < month_length(prev.0, prev.1) {
            (prev.0, prev.1, prev.2 + 1)
        } else if prev.1 < 12 {
            (prev.0, prev.1 + 1, 1nat)
        } else {
            (prev.0 + 1, 1nat, 1nat)
        };
        reveal_with_fuel(days_before_month, 13);
        assert(days_before_year(prev.0 + 1) == days_before_year(prev.0) + if is_leap(prev.0) {
            366nat
        } else {
            365nat
        });
        assert(is_date(next.0, next.1, next.2));
        assert(day_number(next.0, next.1, next.2) == days);
    }
}

/// Every day has a date, so a timestamp names the day it was made for.
pub proof fn every_day_has_a_date(days: nat)
    ensures
        ({
            let date = date_of(days);
            is_date(date.0, date.1, date.2) && day_number(date.0, date.1, date.2) == days
        }),
{
    date_exists(days);
}

} // verus!
