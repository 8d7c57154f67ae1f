//! Instants in UTC and the calendar they fall in.
use chrono::{DateTime, Datelike, Months, TimeDelta};
use vstd::prelude::*;

use crate::text::digit;

verus! {

/// The first second that can be told: the start of the year -262143.
pub const MIN_SECS: i64 = -8_334_601_228_800;

/// The last second that can be told: the end of the year 262142.
pub const MAX_SECS: i64 = 8_210_266_876_799;

/// The first year that can be told.
pub const MIN_YEAR: i32 = -262_143;

/// The last year that can be told.
pub const MAX_YEAR: i32 = 262_142;

/// An instant: whole seconds since 1970-01-01T00:00:00Z, and nanoseconds within the second. A
/// leap second is told as a second with 1,000,000,000 nanoseconds or more, at the end of a minute.
#[derive(Clone, Copy, Debug, PartialEq, Eq, Structural, Hash)]
pub struct UtcTime {
    pub secs: i64,
    pub nanos: u32,
}

impl UtcTime {
    /// Whether the instant is within a leap second.
    pub open spec fn leap(self) -> bool {
        self.nanos >= 1_000_000_000
    }

    /// Whether the instant can be told.
    pub open spec fn wf(self) -> bool {
        &&& MIN_SECS <= self.secs <= MAX_SECS
        &&& self.nanos < 1_000_000_000 || (self.nanos < 2_000_000_000 && self.secs as int % 60
            == 59)
    }

    /// The second of the minute.
    pub open spec fn second(self) -> int {
        self.secs as int % 60
    }

    /// The minute of the hour.
    pub open spec fn minute(self) -> int {
        self.secs as int / 60 % 60
    }

    /// The hour of the day.
    pub open spec fn hour(self) -> int {
        self.secs as int / 3600 % 24
    }

    /// The seconds since midnight.
    pub open spec fn time_of_day(self) -> int {
        self.secs as int % 86400
    }

    /// The days since 1970-01-01.
    pub open spec fn days(self) -> int {
        self.secs as int / 86400
    }

    /// Whether the instant comes before `other`.
    pub open spec fn before(self, other: UtcTime) -> bool {
        self.secs < other.secs || (self.secs == other.secs && self.nanos < other.nanos)
    }

    /// The milliseconds since 1970-01-01T00:00:00Z, rounded down.
    pub open spec fn millis(self) -> int {
        self.secs * 1000 + self.nanos as int / 1_000_000
    }

    /// Whether the instant comes before `other`.
    pub fn is_before(&self, other: UtcTime) -> (r: bool)
        ensures
            r == self.before(other),
    {
        self.secs < other.secs || (self.secs == other.secs && self.nanos < other.nanos)
    }

    /// The milliseconds since 1970-01-01T00:00:00Z, rounded down.
    pub fn timestamp_millis(&self) -> (r: i64)
        requires
            self.wf(),
        ensures
            r == self.millis(),
    {
        self.secs * 1000 + (self.nanos / 1_000_000) as i64
    }
}

/// Whether the year has 366 days.
pub open spec fn leap_year(y: int) -> bool {
    y % 4 == 0 && (y % 100 != 0 || y % 400 == 0)
}

/// The days of a month.
pub open spec fn days_in_month(y: int, m: int) -> int {
    if m == 2 {
        if leap_year(y) {
            29
        } else {
            28
        }
    } else if m == 4 || m == 6 || m == 9 || m == 11 {
        30
    } else {
        31
    }
}

/// The days of a year that lie before a month.
pub open spec fn days_before_month(y: int, m: int) -> int {
    let leap = if leap_year(y) {
        1int
    } else {
        0
    };
    if m <= 1 {
        0
    } else if m == 2 {
        31
    } else if m == 3 {
        59 + leap
    } else if m == 4 {
        90 + leap
    } else if m == 5 {
        120 + leap
    } else if m == 6 {
        151 + leap
    } else if m == 7 {
        181 + leap
    } else if m == 8 {
        212 + leap
    } else if m == 9 {
        243 + leap
    } else if m == 10 {
        273 + leap
    } else if m == 11 {
        304 + leap
    } else {
        334 + leap
    }
}

/// The days between 1970-01-01 and the start of a year of the Gregorian calendar.
pub open spec fn days_before_year(y: int) -> int {
    365 * (y - 1) + (y - 1) / 4 - (y - 1) / 100 + (y - 1) / 400 - 719162
}

/// Whether the three numbers make a date that can be told.
pub open spec fn is_date(y: int, m: int, d: int) -> bool {
    MIN_YEAR <= y <= MAX_YEAR && 1 <= m <= 12 && 1 <= d <= days_in_month(y, m)
}

/// The days between 1970-01-01 and a date.
pub open spec fn day_number(y: int, m: int, d: int) -> int {
    days_before_year(y) + days_before_month(y, m) + d - 1
}

/// Whether the instant falls on a date.
pub open spec fn dated(t: UtcTime, y: int, m: int, d: int) -> bool {
    is_date(y, m, d) && day_number(y, m, d) == t.days()
}

/// `chrono::Datelike::year`, `month` and `day` of the UTC date: the date that the instant falls on.
#[verifier::external_body]
pub(crate) fn date_of(t: UtcTime) -> (r: (i32, u32, u32))
    requires
        t.wf(),
    ensures
        dated(t, r.0 as int, r.1 as int, r.2 as int),
{
    let date = DateTime::from_timestamp(t.secs, t.nanos).unwrap();
    (date.year(), date.month(), date.day())
}

/// The instant that lies `nanos` nanoseconds after 1970-01-01T00:00:00Z, outside leap seconds, as
/// seconds and nanoseconds.
pub open spec fn split_nanos(nanos: int) -> (int, int) {
    (nanos / 1_000_000_000, nanos % 1_000_000_000)
}

/// The seconds and nanoseconds of the instant `secs` seconds and `nanos` nanoseconds after `t`. A
/// leap second is left by a step of a second or more, or by one over its end; a step forwards out
/// of it does not count it, a step backwards does.
pub open spec fn shifted(t: UtcTime, secs: int, nanos: int) -> (int, int) {
    let step = secs * 1_000_000_000 + nanos;
    if t.leap() && (step >= 1_000_000_000 || t.nanos + step >= 2_000_000_000) {
        split_nanos(t.secs * 1_000_000_000 + t.nanos - 1_000_000_000 + step)
    } else if t.leap() && step > -1_000_000_000 {
        (t.secs as int, t.nanos + step)
    } else {
        split_nanos(t.secs * 1_000_000_000 + t.nanos + step)
    }
}

/// `chrono::DateTime::checked_add_signed`: the instant `secs` seconds and `nanos` nanoseconds
/// later, or `None` where it cannot be told.
#[verifier::external_body]
pub(crate) fn checked_add_signed(t: UtcTime, secs: i64, nanos: i64) -> (r: Option<UtcTime>)
    requires
        t.wf(),
        -9_000_000_000_000_000 <= secs <= 9_000_000_000_000_000,
        -2_000_000_000 < nanos < 2_000_000_000,
    ensures
        match r {
            Some(u) => u.wf() && (u.secs as int, u.nanos as int) == shifted(
                t,
                secs as int,
                nanos as int,
            ),
            None => !(MIN_SECS <= shifted(t, secs as int, nanos as int).0 <= MAX_SECS),
        },
{
    let step = TimeDelta::seconds(secs) + TimeDelta::nanoseconds(nanos);
    let from = DateTime::from_timestamp(t.secs, t.nanos)?;
    let to = from.checked_add_signed(step)?;
    Some(UtcTime { secs: to.timestamp(), nanos: to.timestamp_subsec_nanos() })
}

/// The date `n` months after a date: in a shorter month, its last day.
pub open spec fn months_later(y: int, m: int, d: int, n: int) -> (int, int, int) {
    let month = y * 12 + m - 1 + n;
    let year = month / 12;
    let of_year = month % 12 + 1;
    (year, of_year, if d <= days_in_month(year, of_year) {
        d
    } else {
        days_in_month(year, of_year)
    })
}

/// Whether `r` is the instant `n` months after `t`, at the same time of the day, or `None` where it
/// cannot be told.
pub open spec fn is_months_later(t: UtcTime, n: int, r: Option<UtcTime>) -> bool {
    &&& r matches Some(u) ==> u.wf()
    &&& forall|y: int, m: int, d: int| #[trigger]
        dated(t, y, m, d) ==> {
            let to = months_later(y, m, d, n);
            match r {
                Some(u) => MIN_YEAR <= to.0 <= MAX_YEAR && u.secs == day_number(
                    to.0,
                    to.1,
                    to.2,
                ) * 86400 + t.time_of_day() && u.nanos == t.nanos,
                None => !(MIN_YEAR <= to.0 <= MAX_YEAR),
            }
        }
}

/// `chrono::DateTime::checked_add_months`: the same time of the day `n` months later, on the last
/// day of a month that is too short, or `None` where it cannot be told.
#[verifier::external_body]
pub(crate) fn checked_add_months(t: UtcTime, n: u32) -> (r: Option<UtcTime>)
    requires
        t.wf(),
    ensures
        is_months_later(t, n as int, r),
{
    let from = DateTime::from_timestamp(t.secs, t.nanos)?;
    let to = from.checked_add_months(Months::new(n))?;
    Some(UtcTime { secs: to.timestamp(), nanos: to.timestamp_subsec_nanos() })
}

/// `chrono::DateTime::checked_sub_months`: the same time of the day `n` months earlier, on the last
/// day of a month that is too short, or `None` where it cannot be told.
#[verifier::external_body]
pub(crate) fn checked_sub_months(t: UtcTime, n: u32) -> (r: Option<UtcTime>)
    requires
        t.wf(),
    ensures
        is_months_later(t, -(n as int), r),
{
    let from = DateTime::from_timestamp(t.secs, t.nanos)?;
    let to = from.checked_sub_months(Months::new(n))?;
    Some(UtcTime { secs: to.timestamp(), nanos: to.timestamp_subsec_nanos() })
}

/// The nanoseconds from `from` to `to`. A leap second counts where the later time of the day lies
/// behind it.
pub open spec fn nanos_between(from: UtcTime, to: UtcTime) -> int {
    let leaps: int = if to.time_of_day() > from.time_of_day() && from.leap() {
        1
    } else if to.time_of_day() < from.time_of_day() && to.leap() {
        -1
    } else {
        0
    };
    (to.secs - from.secs + leaps) * 1_000_000_000 + (to.nanos - from.nanos)
}

/// The whole seconds of so many nanoseconds, cut off towards zero.
pub open spec fn whole_seconds(nanos: int) -> int {
    if nanos >= 0 {
        nanos / 1_000_000_000
    } else {
        -((-nanos) / 1_000_000_000)
    }
}

/// `chrono::DateTime::signed_duration_since` in the seconds of `chrono::TimeDelta::num_seconds`: the
/// whole seconds from `from` to `to`.
#[verifier::external_body]
pub(crate) fn seconds_between(from: UtcTime, to: UtcTime) -> (r: i64)
    requires
        from.wf(),
        to.wf(),
    ensures
        r == whole_seconds(nanos_between(from, to)),
{
    let from = DateTime::from_timestamp(from.secs, from.nanos).unwrap();
    let to = DateTime::from_timestamp(to.secs, to.nanos).unwrap();
    to.signed_duration_since(from).num_seconds()
}

/// The text of an instant, `secs` seconds and `nanos` nanoseconds after 1970-01-01T00:00:00Z, in
/// the form `pattern`.
pub uninterp spec fn time_text(secs: i64, nanos: u32, pattern: Seq<char>) -> Seq<char>;

/// Whether a form is one that instants are shown in.
pub open spec fn known_pattern(pattern: Seq<char>) -> bool {
    ||| pattern == "%H:%M:%S"@
    ||| pattern == "%Y-%m-%d %H:%M:%S"@
    ||| pattern == "%Y%m%d-%H%M%S"@
}

/// A number below 100 in two digits.
pub open spec fn two_digits(n: int) -> Seq<char> {
    seq![digit(n / 10), digit(n % 10)]
}

/// The time of day of an instant; a leap second is the second 60 of its minute.
pub open spec fn clock(t: UtcTime) -> Seq<char> {
    two_digits(t.hour()) + ":"@ + two_digits(t.minute()) + ":"@ + two_digits(
        t.second() + t.nanos as int / 1_000_000_000,
    )
}

/// `chrono::DateTime::format` with one of the forms that are used here. The result is named; that of
/// `%H:%M:%S` is the time of day.
#[verifier::external_body]
pub(crate) fn format_time(t: UtcTime, pattern: &str) -> (r: String)
    requires
        t.wf(),
        known_pattern(pattern@),
    ensures
        r@ == time_text(t.secs, t.nanos, pattern@),
        pattern@ == "%H:%M:%S"@ ==> r@ == clock(t),
{
    DateTime::from_timestamp(t.secs, t.nanos).unwrap().format(pattern).to_string()
}

proof fn quarter_step(y: int)
    ensures
        y / 4 == (y - 1) / 4 + (if y % 4 == 0 {
            1int
        } else {
            0
        }),
{
}

proof fn century_step(y: int)
    ensures
        y / 100 == (y - 1) / 100 + (if y % 100 == 0 {
            1int
        } else {
            0
        }),
{
}

proof fn four_centuries_step(y: int)
    ensures
        y / 400 == (y - 1) / 400 + (if y % 400 == 0 {
            1int
        } else {
            0
        }),
{
}

proof fn multiples(y: int)
    ensures
        y % 400 == 0 ==> y % 100 == 0,
        y % 100 == 0 ==> y % 4 == 0,
{
    if y % 400 == 0 {
        assert(y == 400 * (y / 400));
        assert(y == 100 * (4 * (y / 400)));
    }
    if y % 100 == 0 {
        assert(y == 100 * (y / 100));
        assert(y == 4 * (25 * (y / 100)));
    }
}

/// A year is followed by the next one after its own number of days.
pub proof fn year_step(y: int)
    ensures
        days_before_year(y + 1) == days_before_year(y) + (if leap_year(y) {
            366int
        } else {
            365
        }),
{
    quarter_step(y);
    century_step(y);
    four_centuries_step(y);
    multiples(y);
    assert(y + 1 - 1 == y);
}

/// A later year starts after the end of an earlier one.
pub proof fn years_ascend(y1: int, y2: int)
    requires
        y1 < y2,
    ensures
        days_before_year(y1) + (if leap_year(y1) {
            366int
        } else {
            365
        }) <= days_before_year(y2),
    decreases y2 - y1,
{
    year_step(y1);
    if y1 + 1 < y2 {
        years_ascend(y1 + 1, y2);
    }
}

/// An instant falls on one date only.
pub proof fn date_is_unique(t: UtcTime, y1: int, m1: int, d1: int, y2: int, m2: int, d2: int)
    requires
        dated(t, y1, m1, d1),
        dated(t, y2, m2, d2),
    ensures
        y1 == y2,
        m1 == m2,
        d1 == d2,
{
    if y1 < y2 {
        years_ascend(y1, y2);
    } else if y2 < y1 {
        years_ascend(y2, y1);
    }
}

proof fn year_of_day(day: int, from: int, to: int) -> (y: int)
    requires
        from < to,
        days_before_year(from) <= day < days_before_year(to),
    ensures
        from <= y < to,
        days_before_year(y) <= day < days_before_year(y + 1),
    decreases to - from,
{
    if day < days_before_year(from + 1) {
        from
    } else {
        year_of_day(day, from + 1, to)
    }
}

/// Every instant falls on a date.
pub proof fn every_time_has_a_date(t: UtcTime)
    requires
        t.wf(),
    ensures
        exists|y: int, m: int, d: int| dated(t, y, m, d),
{
    let y = year_of_day(t.days(), MIN_YEAR as int, MAX_YEAR + 1);
    year_step(y);
    let of_year = t.days() - days_before_year(y);
    let m = if of_year < days_before_month(y, 2) {
        1int
    } else if of_year < days_before_month(y, 3) {
        2
    } else if of_year < days_before_month(y, 4) {
        3
    } else if of_year < days_before_month(y, 5) {
        4
    } else if of_year < days_before_month(y, 6) {
        5
    } else if of_year < days_before_month(y, 7) {
        6
    } else if of_year < days_before_month(y, 8) {
        7
    } else if of_year < days_before_month(y, 9) {
        8
    } else if of_year < days_before_month(y, 10) {
        9
    } else if of_year < days_before_month(y, 11) {
        10
    } else if of_year < days_before_month(y, 12) {
        11
    } else {
        12
    };
    assert(dated(t, y, m, of_year - days_before_month(y, m) + 1));
}

/// The hour, the minute and the second of a time make up the time since midnight, and the days before
/// it make up the rest.
pub proof fn clocks_tell_the_time_of_day(t: UtcTime)
    ensures
        0 <= t.second() < 60,
        0 <= t.minute() < 60,
        0 <= t.hour() < 24,
        t.secs == t.days() * 86400 + t.hour() * 3600 + t.minute() * 60 + t.second(),
        t.time_of_day() == t.hour() * 3600 + t.minute() * 60 + t.second(),
{
}

/// One time is before another by its seconds, and within a second by its nanoseconds; never both ways.
pub proof fn times_come_one_after_another(a: UtcTime, b: UtcTime)
    ensures
        a.secs < b.secs ==> a.before(b),
        a.secs == b.secs ==> (a.before(b) <==> a.nanos < b.nanos),
        a.before(b) ==> !b.before(a),
        a == b || a.before(b) || b.before(a),
        !a.before(b) && !b.before(a) ==> a == b,
{
}

} // verus!
