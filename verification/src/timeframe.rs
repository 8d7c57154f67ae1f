//! Time frames: the periods that bars cover.
use vstd::prelude::*;

use crate::time::{
    checked_add_months, checked_add_signed, checked_sub_months, date_is_unique, date_of, dated,
    day_number, days_in_month, every_time_has_a_date, is_months_later, months_later, shifted,
    year_step, years_ascend, UtcTime, MAX_SECS, MAX_YEAR, MIN_SECS, MIN_YEAR,
};

verus! {

/// The unit that a time frame counts.
#[derive(Clone, Copy, Debug, PartialEq, Eq, Structural, Hash)]
pub enum TimeFrameUnit {
    Second,
    Minute,
    Hour,
    Day,
    Month,
}

impl TimeFrameUnit {
    /// The name of the unit.
    pub open spec fn spec_label(self) -> Seq<char> {
        match self {
            TimeFrameUnit::Second => "Second"@,
            TimeFrameUnit::Minute => "Minute"@,
            TimeFrameUnit::Hour => "Hour"@,
            TimeFrameUnit::Day => "Day"@,
            TimeFrameUnit::Month => "Month"@,
        }
    }

    /// The name of the unit.
    pub fn label(&self) -> (r: &'static str)
        ensures
            r@ == self.spec_label(),
    {
        match self {
            TimeFrameUnit::Second => "Second",
            TimeFrameUnit::Minute => "Minute",
            TimeFrameUnit::Hour => "Hour",
            TimeFrameUnit::Day => "Day",
            TimeFrameUnit::Month => "Month",
        }
    }

    /// All units, from the shortest to the longest.
    pub fn variants() -> (r: [TimeFrameUnit; 5])
        ensures
            r@ == seq![
                TimeFrameUnit::Second,
                TimeFrameUnit::Minute,
                TimeFrameUnit::Hour,
                TimeFrameUnit::Day,
                TimeFrameUnit::Month,
            ],
    {
        [
            TimeFrameUnit::Second,
            TimeFrameUnit::Minute,
            TimeFrameUnit::Hour,
            TimeFrameUnit::Day,
            TimeFrameUnit::Month,
        ]
    }

    /// The seconds of a unit of fixed length; a month has none.
    pub open spec fn seconds(self) -> int {
        match self {
            TimeFrameUnit::Second => 1,
            TimeFrameUnit::Minute => 60,
            TimeFrameUnit::Hour => 3600,
            TimeFrameUnit::Day => 86400,
            TimeFrameUnit::Month => 0,
        }
    }
}

/// Why a time frame or a time could not be made.
#[derive(Clone, Copy, Debug, PartialEq, Eq, Structural, Hash)]
pub enum TimeFrameError {
    InvalidTimeFrameUnit,
    InvalidTimeFrameAmount,
    InvalidTimeFramePeriod,
}

/// Whether a time frame of `amount` units makes sense: less than the next greater unit.
pub open spec fn valid_amount(amount: int, unit: TimeFrameUnit) -> bool {
    1 <= amount && match unit {
        TimeFrameUnit::Second | TimeFrameUnit::Minute => amount <= 59,
        TimeFrameUnit::Hour => amount <= 23,
        TimeFrameUnit::Day | TimeFrameUnit::Month => amount == 1,
    }
}

/// A period of so many units.
#[derive(Clone, Copy, Debug, Eq, Hash)]
pub struct TimeFrame {
    amount: u8,
    unit: TimeFrameUnit,
}

impl PartialEq for TimeFrame {
    fn eq(&self, other: &Self) -> (r: bool) {
        self.amount == other.amount && self.unit == other.unit
    }
}

impl vstd::std_specs::cmp::PartialEqSpecImpl for TimeFrame {
    open spec fn obeys_eq_spec() -> bool {
        true
    }

    open spec fn eq_spec(&self, other: &Self) -> bool {
        self.spec_amount() == other.spec_amount() && self.spec_unit() == other.spec_unit()
    }
}

/// Time frames that compare equal are the same.
pub proof fn equal_frames_are_one(a: TimeFrame, b: TimeFrame)
    ensures
        (a.spec_amount() == b.spec_amount() && a.spec_unit() == b.spec_unit()) <==> a == b,
{
}

/// Whether two time frames are the same.
pub fn same_frame(a: TimeFrame, b: TimeFrame) -> (r: bool)
    ensures
        r == (a == b),
{
    proof {
        equal_frames_are_one(a, b);
    }
    a == b
}

impl Default for TimeFrame {
    /// One minute.
    fn default() -> (r: Self)
        ensures
            r.spec_amount() == 1,
            r.spec_unit() is Minute,
    {
        TimeFrame::new(1, TimeFrameUnit::Minute)
    }
}

/// Whether a time lies on a boundary of the time frame.
pub open spec fn aligned(amount: int, unit: TimeFrameUnit, t: UtcTime) -> bool {
    match unit {
        TimeFrameUnit::Second => t.second() % amount == 0,
        TimeFrameUnit::Minute => t.minute() % amount == 0 && t.second() == 0,
        TimeFrameUnit::Hour => t.hour() % amount == 0 && t.minute() == 0 && t.second() == 0,
        TimeFrameUnit::Day => t.time_of_day() == 0,
        TimeFrameUnit::Month => t.time_of_day() == 0 && exists|y: int, m: int|
            #[trigger] dated(t, y, m, 1),
    }
}

/// The seconds from the last boundary of the time frame to a time, within the next greater unit.
pub open spec fn past_boundary(amount: int, unit: TimeFrameUnit, t: UtcTime) -> int {
    match unit {
        TimeFrameUnit::Second => t.second() % amount,
        TimeFrameUnit::Minute => t.minute() % amount * 60 + t.second(),
        TimeFrameUnit::Hour => t.hour() % amount * 3600 + t.minute() * 60 + t.second(),
        _ => t.time_of_day(),
    }
}

fn second_of(t: UtcTime) -> (r: u32)
    ensures
        r == t.second(),
{
    match t.secs.checked_rem_euclid(60) {
        Some(s) => s as u32,
        None => 0,
    }
}

fn minute_of(t: UtcTime) -> (r: u32)
    ensures
        r == t.minute(),
{
    match t.secs.checked_rem_euclid(3600) {
        Some(s) => {
            proof {
                let q = t.secs as int / 3600;
                assert(t.secs == q * 3600 + s);
                assert(t.secs as int / 60 == q * 60 + s as int / 60);
            }
            (s / 60) as u32
        },
        None => 0,
    }
}

fn hour_of(t: UtcTime) -> (r: u32)
    ensures
        r == t.hour(),
{
    match t.secs.checked_rem_euclid(86400) {
        Some(s) => {
            proof {
                let q = t.secs as int / 86400;
                assert(t.secs == q * 86400 + s);
                assert(t.secs as int / 3600 == q * 24 + s as int / 3600);
            }
            (s / 3600) as u32
        },
        None => 0,
    }
}

proof fn time_of_day_parts(t: UtcTime)
    ensures
        t.time_of_day() == t.hour() * 3600 + t.minute() * 60 + t.second(),
        0 <= t.second() < 60,
        0 <= t.minute() < 60,
        0 <= t.hour() < 24,
{
    let s = t.secs as int;
    let q = s / 86400;
    let r = s % 86400;
    assert(s == q * 86400 + r);
    assert(s / 3600 == q * 24 + r / 3600);
    assert(s / 60 == q * 1440 + r / 60);
}

impl TimeFrame {
    /// The number of units.
    pub closed spec fn spec_amount(self) -> int {
        self.amount as int
    }

    /// The unit.
    pub closed spec fn spec_unit(self) -> TimeFrameUnit {
        self.unit
    }

    /// Whether the number of units makes sense.
    pub open spec fn wf(self) -> bool {
        valid_amount(self.spec_amount(), self.spec_unit())
    }

    #[verifier::type_invariant]
    spec fn amount_is_valid(self) -> bool {
        valid_amount(self.amount as int, self.unit)
    }

    /// A time frame of `amount` units. Panics where that makes no sense.
    pub fn new(amount: u8, unit: TimeFrameUnit) -> (r: TimeFrame)
        requires
            valid_amount(amount as int, unit),
        ensures
            r.wf(),
            r.spec_amount() == amount,
            r.spec_unit() == unit,
    {
        TimeFrame::validate_time_frame(amount, unit).unwrap()
    }

    /// The time frame of `amount` units, or an error where that makes no sense.
    pub fn validate_time_frame(amount: u8, unit: TimeFrameUnit) -> (r: Result<
        TimeFrame,
        TimeFrameError,
    >)
        ensures
            r is Ok <==> valid_amount(amount as int, unit),
            r matches Ok(tf) ==> tf.wf() && tf.spec_amount() == amount && tf.spec_unit() == unit,
            r matches Err(e) ==> e is InvalidTimeFrameAmount,
    {
        if amount == 0 {
            return Err(TimeFrameError::InvalidTimeFrameAmount);
        }
        let is_valid = match unit {
            TimeFrameUnit::Second | TimeFrameUnit::Minute => amount <= 59,
            TimeFrameUnit::Hour => amount <= 23,
            TimeFrameUnit::Day | TimeFrameUnit::Month => amount == 1,
        };
        if !is_valid {
            return Err(TimeFrameError::InvalidTimeFrameAmount);
        }
        Ok(TimeFrame { amount, unit })
    }

    /// The number of units.
    pub fn get_amount(&self) -> (r: u8)
        ensures
            r == self.spec_amount(),
    {
        self.amount
    }

    /// The unit.
    pub fn get_unit(&self) -> (r: TimeFrameUnit)
        ensures
            r == self.spec_unit(),
    {
        self.unit
    }

    /// Whether a time lies on a boundary of the time frame: a time frame of 15 minutes has its
    /// boundaries at the minutes 0, 15, 30 and 45.
    pub fn is_interval_valid(&self, time: UtcTime) -> (r: bool)
        requires
            time.wf(),
        ensures
            r == aligned(self.spec_amount(), self.spec_unit(), time),
    {
        proof {
            use_type_invariant(self);
            time_of_day_parts(time);
        }
        let second = second_of(time);
        let minute = minute_of(time);
        let hour = hour_of(time);
        let amount: u32 = self.amount as u32;
        match self.unit {
            TimeFrameUnit::Second => second % amount == 0,
            TimeFrameUnit::Minute => minute % amount == 0 && second == 0,
            TimeFrameUnit::Hour => hour % amount == 0 && minute == 0 && second == 0,
            TimeFrameUnit::Day => hour == 0 && minute == 0 && second == 0,
            TimeFrameUnit::Month => {
                let (y, m, d) = date_of(time);
                proof {
                    assert forall|y2: int, m2: int| #[trigger] dated(time, y2, m2, 1) implies d
                        == 1 by {
                        date_is_unique(time, y as int, m as int, d as int, y2, m2, 1);
                    }
                }
                d == 1 && hour == 0 && minute == 0 && second == 0
            },
        }
    }

    /// The seconds of `periods` time frames of fixed length.
    pub open spec fn step(self, periods: int) -> int {
        self.spec_unit().seconds() * (self.spec_amount() * periods)
    }

    /// Whether `r` is the time `periods` time frames after `time`: for months the same time of the
    /// day so many months later. It is an error exactly where that time cannot be told.
    pub open spec fn is_sum(
        self,
        time: UtcTime,
        periods: int,
        r: Result<UtcTime, TimeFrameError>,
    ) -> bool {
        &&& r matches Ok(u) ==> u.wf()
        &&& r matches Err(e) ==> e is InvalidTimeFramePeriod
        &&& if self.spec_unit() is Month {
            is_months_later(time, periods, r.ok())
        } else {
            match r {
                Ok(u) => (u.secs as int, u.nanos as int) == shifted(time, self.step(periods), 0),
                Err(_) => !(MIN_SECS <= shifted(time, self.step(periods), 0).0 <= MAX_SECS),
            }
        }
    }

    /// The time `periods` time frames after `time`, or before it where the number is negative; an
    /// error where that time cannot be told.
    pub fn add_time_increment(&self, time: UtcTime, periods: i64) -> (r: Result<
        UtcTime,
        TimeFrameError,
    >)
        requires
            time.wf(),
        ensures
            self.is_sum(time, periods as int, r),
    {
        proof {
            use_type_invariant(self);
        }
        match self.unit {
            TimeFrameUnit::Month => {
                if periods > 0xffff_ffff || periods < -0xffff_ffff {
                    proof {
                        so_many_months_cannot_be_told(time, periods as int);
                    }
                    return Err(TimeFrameError::InvalidTimeFramePeriod);
                }
                let later = if periods >= 0 {
                    checked_add_months(time, periods as u32)
                } else {
                    checked_sub_months(time, (-periods) as u32)
                };
                match later {
                    Some(u) => Ok(u),
                    None => Err(TimeFrameError::InvalidTimeFramePeriod),
                }
            },
            _ => {
                let unit: i128 = match self.unit {
                    TimeFrameUnit::Second => 1,
                    TimeFrameUnit::Minute => 60,
                    TimeFrameUnit::Hour => 3600,
                    _ => 86400,
                };
                let amount: i128 = self.amount as i128;
                proof {
                    assert(-59 * 0x8000_0000_0000_0000 <= amount * periods <= 59
                        * 0x8000_0000_0000_0000) by (nonlinear_arith)
                        requires
                            1 <= amount <= 59,
                            -0x8000_0000_0000_0000 <= periods <= 0x8000_0000_0000_0000,
                    ;
                }
                let step: i128 = unit * (amount * periods as i128);
                proof {
                    assert(step == self.step(periods as int));
                    if step > 9_000_000_000_000_000 || step < -9_000_000_000_000_000 {
                        far_steps_cannot_be_told(time, step as int);
                    }
                }
                if step > 9_000_000_000_000_000 || step < -9_000_000_000_000_000 {
                    return Err(TimeFrameError::InvalidTimeFramePeriod);
                }
                match checked_add_signed(time, step as i64, 0) {
                    Some(u) => Ok(u),
                    None => Err(TimeFrameError::InvalidTimeFramePeriod),
                }
            },
        }
    }

    /// Whether `r` is the last boundary of the time frame at or before `time`.
    pub open spec fn is_current(self, time: UtcTime, r: UtcTime) -> bool {
        &&& r.nanos == 0
        &&& if self.spec_unit() is Month {
            forall|y: int, m: int, d: int| #[trigger]
                dated(time, y, m, d) ==> r.secs == day_number(y, m, 1) * 86400
        } else {
            r.secs == time.secs - past_boundary(self.spec_amount(), self.spec_unit(), time)
        }
    }

    /// The last boundary of the time frame at or before `time`.
    pub fn get_current_time_increment(&self, time: UtcTime) -> (r: UtcTime)
        requires
            time.wf(),
        ensures
            r.wf(),
            self.is_current(time, r),
    {
        proof {
            use_type_invariant(self);
            time_of_day_parts(time);
        }
        let second: i64 = second_of(time) as i64;
        let minute: i64 = minute_of(time) as i64;
        let hour: i64 = hour_of(time) as i64;
        let amount: i64 = self.amount as i64;
        let back: i64 = match self.unit {
            TimeFrameUnit::Second => second % amount,
            TimeFrameUnit::Minute => minute % amount * 60 + second,
            TimeFrameUnit::Hour => hour % amount * 3600 + minute * 60 + second,
            TimeFrameUnit::Day => hour * 3600 + minute * 60 + second,
            TimeFrameUnit::Month => {
                let (y, m, d) = date_of(time);
                proof {
                    assert forall|y2: int, m2: int, d2: int| #[trigger]
                        dated(time, y2, m2, d2) implies y2 == y && m2 == m && d2 == d by {
                        date_is_unique(time, y as int, m as int, d as int, y2, m2, d2);
                    }
                    month_start_can_be_told(y as int, m as int);
                    time_splits(time);
                }
                (d as i64 - 1) * 86400 + hour * 3600 + minute * 60 + second
            },
        };
        proof {
            midnight_can_be_told(time);
            remainder_is_at_most(second as int, amount as int);
            remainder_is_at_most(minute as int, amount as int);
            remainder_is_at_most(hour as int, amount as int);
            step_back(time, back as int);
        }
        match checked_add_signed(time, -back, -(time.nanos as i64)) {
            Some(u) => u,
            None => time,
        }
    }

    /// The seconds of the boundary after `time`, in a time frame of fixed length, counted from the
    /// boundary before it; from within a leap second, one second less.
    pub open spec fn next_secs(self, time: UtcTime) -> int {
        time.secs - past_boundary(self.spec_amount(), self.spec_unit(), time)
            + self.spec_unit().seconds() * self.spec_amount() - (if time.leap() {
            1int
        } else {
            0
        })
    }

    /// Whether the boundary after `time` can be told.
    pub open spec fn has_next(self, time: UtcTime) -> bool {
        if self.spec_unit() is Month {
            forall|y: int, m: int, d: int| #[trigger]
                dated(time, y, m, d) ==> months_later(y, m, d, 1).0 <= MAX_YEAR
        } else {
            self.next_secs(time) <= MAX_SECS
        }
    }

    /// Whether `r` is the first boundary of the time frame after `time`, counted from the boundary
    /// before it; from within a leap second, one second less.
    pub open spec fn is_next(self, time: UtcTime, r: UtcTime) -> bool {
        &&& r.nanos == 0
        &&& if self.spec_unit() is Month {
            forall|y: int, m: int, d: int| #[trigger]
                dated(time, y, m, d) ==> r.secs == first_of_next_month(y, m) * 86400
        } else {
            r.secs == self.next_secs(time)
        }
    }

    /// The first boundary of the time frame after `time`, counted from the boundary before it.
    /// From within a leap second the result lies one second too early, except for months.
    pub fn get_next_time_increment(&self, time: UtcTime) -> (r: UtcTime)
        requires
            time.wf(),
            self.has_next(time),
        ensures
            r.wf(),
            self.is_next(time, r),
    {
        proof {
            use_type_invariant(self);
            time_of_day_parts(time);
        }
        let second: i64 = second_of(time) as i64;
        let minute: i64 = minute_of(time) as i64;
        let hour: i64 = hour_of(time) as i64;
        let amount: i64 = self.amount as i64;
        match self.unit {
            TimeFrameUnit::Month => next_month(time),
            _ => {
                let (ahead, back): (i64, i64) = match self.unit {
                    TimeFrameUnit::Second => (amount - second % amount, 0),
                    TimeFrameUnit::Minute => ((amount - minute % amount) * 60, second),
                    TimeFrameUnit::Hour => (
                        (amount - hour % amount) * 3600,
                        minute * 60 + second,
                    ),
                    _ => (86400, hour * 3600 + minute * 60 + second),
                };
                let start = match checked_add_signed(time, 0, -(time.nanos as i64)) {
                    Some(u) => u,
                    None => time,
                };
                let leap: i64 = if time.nanos >= 1_000_000_000 {
                    1
                } else {
                    0
                };
                proof {
                    step_back(time, 0);
                    remainder_is_at_most(second as int, amount as int);
                    remainder_is_at_most(minute as int, amount as int);
                    remainder_is_at_most(hour as int, amount as int);
                    whole_step(start, ahead - back - leap);
                    midnight_can_be_told(time);
                }
                match checked_add_signed(start, ahead - back - leap, 0) {
                    Some(u) => u,
                    None => start,
                }
            },
        }
    }
}

/// The start of the month after the one that `time` falls in.
fn next_month(time: UtcTime) -> (r: UtcTime)
    requires
        time.wf(),
        forall|y: int, m: int, d: int| #[trigger]
            dated(time, y, m, d) ==> months_later(y, m, d, 1).0 <= MAX_YEAR,
    ensures
        r.wf(),
        r.nanos == 0,
        forall|y: int, m: int, d: int| #[trigger]
            dated(time, y, m, d) ==> r.secs == first_of_next_month(y, m) * 86400,
{
    let (y, m, d) = date_of(time);
    let ghost to = months_later(y as int, m as int, d as int, 1);
    proof {
        assert forall|y2: int, m2: int, d2: int| #[trigger] dated(time, y2, m2, d2) implies y2 == y
            && m2 == m && d2 == d by {
            date_is_unique(time, y as int, m as int, d as int, y2, m2, d2);
        }
        assert(dated(time, y as int, m as int, d as int));
    }
    let later = match checked_add_months(time, 1) {
        Some(u) => u,
        None => time,
    };
    let (ly, lm, ld) = date_of(later);
    proof {
        assert(later.secs == day_number(to.0, to.1, to.2) * 86400 + time.time_of_day());
        assert(later.days() == day_number(to.0, to.1, to.2));
        assert(dated(later, to.0, to.1, to.2));
        date_is_unique(later, ly as int, lm as int, ld as int, to.0, to.1, to.2);
        time_of_day_parts(later);
        time_splits(later);
        month_start_can_be_told(ly as int, lm as int);
    }
    let back: i64 = (ld as i64 - 1) * 86400 + hour_of(later) as i64 * 3600 + minute_of(later) as i64
        * 60 + second_of(later) as i64;
    proof {
        step_back(later, back as int);
        assert(later.secs - back == day_number(to.0, to.1, 1) * 86400);
    }
    match checked_add_signed(later, -back, -(later.nanos as i64)) {
        Some(u) => u,
        None => later,
    }
}

/// The number of the first day of the month after a month.
pub open spec fn first_of_next_month(y: int, m: int) -> int {
    if m == 12 {
        day_number(y + 1, 1, 1)
    } else {
        day_number(y, m + 1, 1)
    }
}

proof fn so_many_months_cannot_be_told(t: UtcTime, n: int)
    requires
        n > 0xffff_ffff || n < -0xffff_ffff,
    ensures
        is_months_later(t, n, None),
{
}

proof fn far_steps_cannot_be_told(t: UtcTime, step: int)
    requires
        t.wf(),
        step > 9_000_000_000_000_000 || step < -9_000_000_000_000_000,
    ensures
        !(MIN_SECS <= shifted(t, step, 0).0 <= MAX_SECS),
{
}

proof fn remainder_is_at_most(x: int, a: int)
    by (nonlinear_arith)
    requires
        0 <= x,
        0 < a,
    ensures
        0 <= x % a <= x,
        x % a < a,
{
}

proof fn time_splits(t: UtcTime)
    ensures
        t.secs == t.days() * 86400 + t.time_of_day(),
{
}

proof fn midnight_can_be_told(t: UtcTime)
    requires
        t.wf(),
    ensures
        MIN_SECS <= t.secs - t.time_of_day(),
{
    time_splits(t);
}

proof fn month_start_can_be_told(y: int, m: int)
    requires
        MIN_YEAR <= y,
        1 <= m <= 12,
    ensures
        MIN_SECS <= day_number(y, m, 1) * 86400,
{
    if MIN_YEAR < y {
        years_ascend(MIN_YEAR as int, y);
    }
}

proof fn step_back(t: UtcTime, back: int)
    requires
        t.wf(),
        0 <= back,
        t.leap() ==> back >= 0,
    ensures
        t.leap() ==> shifted(t, -back, -(t.nanos as int)) == (t.secs - back, 0int),
        !t.leap() ==> shifted(t, -back, -(t.nanos as int)) == (t.secs - back, 0int),
{
    let total = t.secs * 1_000_000_000 + t.nanos + (-back * 1_000_000_000 - t.nanos);
    assert(total == (t.secs - back) * 1_000_000_000);
}

proof fn step_ahead(t: UtcTime, ahead: int)
    requires
        t.wf(),
        1 <= ahead,
    ensures
        !t.leap() ==> shifted(t, ahead, 0) == (t.secs + ahead, t.nanos as int),
        t.leap() ==> shifted(t, ahead, 0) == (t.secs + ahead, t.nanos - 1_000_000_000),
{
    if t.leap() {
        let total = t.secs * 1_000_000_000 + t.nanos - 1_000_000_000 + ahead * 1_000_000_000;
        assert(total == (t.secs + ahead) * 1_000_000_000 + (t.nanos - 1_000_000_000));
    } else {
        let total = t.secs * 1_000_000_000 + t.nanos + ahead * 1_000_000_000;
        assert(total == (t.secs + ahead) * 1_000_000_000 + t.nanos);
    }
}

proof fn clock_after_step_back(t: UtcTime, r: UtcTime, back: int)
    requires
        0 <= back <= t.time_of_day(),
        r.secs == t.secs - back,
    ensures
        r.days() == t.days(),
        r.time_of_day() == t.time_of_day() - back,
        r.time_of_day() == r.hour() * 3600 + r.minute() * 60 + r.second(),
        0 <= r.second() < 60,
        0 <= r.minute() < 60,
        0 <= r.hour() < 24,
{
    time_of_day_parts(t);
    time_of_day_parts(r);
    time_splits(t);
    time_splits(r);
}

proof fn remainder_taken_off(x: int, a: int)
    by (nonlinear_arith)
    requires
        0 <= x,
        0 < a,
    ensures
        (x - x % a) % a == 0,
        0 <= x - x % a,
{
}

proof fn past_boundary_bounds(tf: TimeFrame, t: UtcTime)
    requires
        tf.wf(),
        !(tf.spec_unit() is Month),
    ensures
        0 <= past_boundary(tf.spec_amount(), tf.spec_unit(), t) <= t.time_of_day(),
        past_boundary(tf.spec_amount(), tf.spec_unit(), t) < tf.spec_unit().seconds()
            * tf.spec_amount(),
{
    time_of_day_parts(t);
    remainder_is_at_most(t.second(), tf.spec_amount());
    remainder_is_at_most(t.minute(), tf.spec_amount());
    remainder_is_at_most(t.hour(), tf.spec_amount());
}

proof fn clock_reads(r: UtcTime, h: int, m: int, s: int)
    requires
        0 <= h < 24,
        0 <= m < 60,
        0 <= s < 60,
        r.time_of_day() == h * 3600 + m * 60 + s,
    ensures
        r.hour() == h,
        r.minute() == m,
        r.second() == s,
{
    time_of_day_parts(r);
}

proof fn fixed_current_is_aligned(tf: TimeFrame, t: UtcTime, r: UtcTime)
    requires
        tf.wf(),
        t.wf(),
        !(tf.spec_unit() is Month),
        tf.is_current(t, r),
    ensures
        aligned(tf.spec_amount(), tf.spec_unit(), r),
{
    let a = tf.spec_amount();
    past_boundary_bounds(tf, t);
    time_of_day_parts(t);
    clock_after_step_back(t, r, past_boundary(a, tf.spec_unit(), t));
    match tf.spec_unit() {
        TimeFrameUnit::Second => {
            remainder_taken_off(t.second(), a);
            remainder_is_at_most(t.second(), a);
            clock_reads(r, t.hour(), t.minute(), t.second() - t.second() % a);
        },
        TimeFrameUnit::Minute => {
            remainder_taken_off(t.minute(), a);
            remainder_is_at_most(t.minute(), a);
            clock_reads(r, t.hour(), t.minute() - t.minute() % a, 0);
        },
        TimeFrameUnit::Hour => {
            remainder_taken_off(t.hour(), a);
            remainder_is_at_most(t.hour(), a);
            clock_reads(r, t.hour() - t.hour() % a, 0, 0);
        },
        _ => {},
    }
}

/// The boundary before a time is a boundary.
pub proof fn current_increment_is_aligned(tf: TimeFrame, t: UtcTime, r: UtcTime)
    requires
        tf.wf(),
        t.wf(),
        tf.is_current(t, r),
    ensures
        aligned(tf.spec_amount(), tf.spec_unit(), r),
{
    if tf.spec_unit() is Month {
        every_time_has_a_date(t);
        let (y, m, d) = choose|y: int, m: int, d: int| dated(t, y, m, d);
        assert(r.secs == day_number(y, m, 1) * 86400);
        assert(r.days() == day_number(y, m, 1));
        assert(dated(r, y, m, 1));
    } else {
        fixed_current_is_aligned(tf, t, r);
    }
}

/// The boundary before a time does not come after it.
pub proof fn current_increment_is_not_after(tf: TimeFrame, t: UtcTime, r: UtcTime)
    requires
        tf.wf(),
        t.wf(),
        tf.is_current(t, r),
    ensures
        !t.before(r),
{
    if tf.spec_unit() is Month {
        every_time_has_a_date(t);
        let (y, m, d) = choose|y: int, m: int, d: int| dated(t, y, m, d);
        time_splits(t);
        assert(r.secs == day_number(y, m, 1) * 86400);
    } else {
        past_boundary_bounds(tf, t);
    }
}

/// A boundary is its own boundary before it: taking it twice changes nothing.
pub proof fn current_increment_is_idempotent(tf: TimeFrame, t: UtcTime, r: UtcTime, r2: UtcTime)
    requires
        tf.wf(),
        t.wf(),
        tf.is_current(t, r),
        tf.is_current(r, r2),
    ensures
        r2 == r,
{
    current_increment_is_aligned(tf, t, r);
    time_of_day_parts(r);
    if tf.spec_unit() is Month {
        every_time_has_a_date(t);
        let (y, m, d) = choose|y: int, m: int, d: int| dated(t, y, m, d);
        assert(dated(r, y, m, 1));
    }
}

/// The boundary after a time comes after it, outside leap seconds.
pub proof fn next_increment_is_after(tf: TimeFrame, t: UtcTime, r: UtcTime)
    requires
        tf.wf(),
        t.wf(),
        !t.leap() || tf.spec_unit() is Month,
        tf.is_next(t, r),
    ensures
        t.before(r),
{
    if tf.spec_unit() is Month {
        every_time_has_a_date(t);
        let (y, m, d) = choose|y: int, m: int, d: int| dated(t, y, m, d);
        time_splits(t);
        next_month_starts_after(y, m);
        assert(r.secs == first_of_next_month(y, m) * 86400);
    } else {
        past_boundary_bounds(tf, t);
    }
}

proof fn next_month_starts_after(y: int, m: int)
    requires
        1 <= m <= 12,
    ensures
        first_of_next_month(y, m) == day_number(y, m, 1) + days_in_month(y, m),
{
    if m == 12 {
        year_step(y);
    }
}

/// The boundary after a time lies one time frame after the boundary before it, outside leap
/// seconds: so many units later, or a month later to the day.
pub proof fn next_increment_follows_current(tf: TimeFrame, t: UtcTime, c: UtcTime, n: UtcTime)
    requires
        tf.wf(),
        t.wf(),
        !t.leap() || tf.spec_unit() is Month,
        tf.is_current(t, c),
        tf.is_next(t, n),
        c.wf(),
        n.wf(),
    ensures
        tf.is_sum(c, 1, Ok(n)),
{
    if tf.spec_unit() is Month {
        every_time_has_a_date(t);
        let (y, m, d) = choose|y: int, m: int, d: int| dated(t, y, m, d);
        assert(c.secs == day_number(y, m, 1) * 86400);
        assert(c.days() == day_number(y, m, 1));
        assert(n.secs == first_of_next_month(y, m) * 86400);
        assert(dated(c, y, m, 1));
        assert forall|y2: int, m2: int, d2: int| #[trigger] dated(c, y2, m2, d2) implies ({
            let to = months_later(y2, m2, d2, 1);
            MIN_YEAR <= to.0 <= MAX_YEAR && n.secs == day_number(to.0, to.1, to.2) * 86400
                + c.time_of_day() && n.nanos == c.nanos
        }) by {
            date_is_unique(c, y, m, 1, y2, m2, d2);
            if y == MAX_YEAR && m == 12 {
                time_splits(n);
            }
        }
    } else {
        step_ahead(c, tf.spec_unit().seconds() * tf.spec_amount());
        assert(tf.spec_amount() * 1 == tf.spec_amount());
    }
}

/// The boundary after a time in a frame of seconds is a boundary exactly where the frame does not
/// run over the end of the minute; seven seconds after the second 56, for one, it does.
pub proof fn next_second_is_aligned_within_the_minute(tf: TimeFrame, t: UtcTime, r: UtcTime)
    requires
        tf.wf(),
        t.wf(),
        !t.leap(),
        tf.spec_unit() is Second,
        tf.is_next(t, r),
    ensures
        aligned(tf.spec_amount(), tf.spec_unit(), r) <==> t.second() - t.second()
            % tf.spec_amount() + tf.spec_amount() <= 60,
{
    let a = tf.spec_amount();
    let s = t.second() - t.second() % a + a;
    remainder_taken_off(t.second(), a);
    remainder_is_at_most(t.second(), a);
    assert(r.secs == t.secs - t.second() + s);
    assert((t.secs - t.second()) % 60 == 0);
    if s < 60 {
        assert(r.second() == s);
        assert(s % a == 0) by (nonlinear_arith)
            requires
                (s - a) % a == 0,
                a > 0,
        ;
    } else if s == 60 {
        assert(r.second() == 0);
        assert(0int % a == 0) by (nonlinear_arith)
            requires
                a > 0,
        ;
    } else {
        assert(r.second() == s - 60);
        assert((s - 60) % a == s - 60) by (nonlinear_arith)
            requires
                0 < s - 60 < a,
        ;
    }
}

/// Going back as many time frames as one went ahead leads back, outside leap seconds, for frames
/// of fixed length.
pub proof fn increments_cancel_out(
    tf: TimeFrame,
    t: UtcTime,
    periods: int,
    there: UtcTime,
    back: UtcTime,
)
    requires
        tf.wf(),
        t.wf(),
        !t.leap(),
        !(tf.spec_unit() is Month),
        tf.is_sum(t, periods, Ok(there)),
        tf.is_sum(there, -periods, Ok(back)),
    ensures
        back == t,
{
    let step = tf.spec_unit().seconds() * (tf.spec_amount() * periods);
    assert(tf.spec_unit().seconds() * (tf.spec_amount() * -periods) == -step)
        by (nonlinear_arith)
        requires
            step == tf.spec_unit().seconds() * (tf.spec_amount() * periods),
    ;
    whole_step(t, step);
    whole_step(there, -step);
}

proof fn whole_step(t: UtcTime, step: int)
    requires
        !t.leap(),
    ensures
        shifted(t, step, 0) == (t.secs + step, t.nanos as int),
{
    assert(t.secs * 1_000_000_000 + t.nanos + step * 1_000_000_000 == (t.secs + step)
        * 1_000_000_000 + t.nanos);
}

/// Increments of fixed length add up, outside leap seconds: going ahead twice is going ahead once, by
/// as many time frames in all.
pub proof fn increments_add_up(
    tf: TimeFrame,
    t: UtcTime,
    first: int,
    second: int,
    between: UtcTime,
    end: UtcTime,
)
    requires
        tf.wf(),
        t.wf(),
        !t.leap(),
        !(tf.spec_unit() is Month),
        tf.is_sum(t, first, Ok(between)),
        tf.is_sum(between, second, Ok(end)),
    ensures
        tf.is_sum(t, first + second, Ok(end)),
{
    assert(tf.step(first + second) == tf.step(first) + tf.step(second)) by (nonlinear_arith)
        requires
            tf.step(first) == tf.spec_unit().seconds() * (tf.spec_amount() * first),
            tf.step(second) == tf.spec_unit().seconds() * (tf.spec_amount() * second),
            tf.step(first + second) == tf.spec_unit().seconds() * (tf.spec_amount() * (first
                + second)),
    ;
    whole_step(t, tf.step(first));
    whole_step(between, tf.step(second));
    whole_step(t, tf.step(first + second));
}

proof fn multiple_is_at_most(x: int, y: int, a: int)
    by (nonlinear_arith)
    requires
        0 <= x <= y,
        0 < a,
        x % a == 0,
    ensures
        x <= y - y % a,
{
}

proof fn next_multiple_is_within(x: int, a: int, whole: int)
    by (nonlinear_arith)
    requires
        0 <= x < whole,
        0 < a,
        whole % a == 0,
    ensures
        x - x % a + a <= whole,
        (x - x % a + a) % a == 0,
{
}

proof fn months_start_in_order(y1: int, m1: int, y2: int, m2: int)
    requires
        1 <= m1 <= 12,
        1 <= m2 <= 12,
        y1 < y2 || (y1 == y2 && m1 < m2),
    ensures
        first_of_next_month(y1, m1) <= day_number(y2, m2, 1),
{
    year_step(y1);
    if y1 < y2 {
        years_ascend(y1, y2);
    }
}

/// No boundary of the time frame lies between the boundary before a time and that time.
pub proof fn no_boundary_lies_between(tf: TimeFrame, t: UtcTime, c: UtcTime, x: UtcTime)
    requires
        tf.wf(),
        t.wf(),
        tf.is_current(t, c),
        aligned(tf.spec_amount(), tf.spec_unit(), x),
        !t.before(x),
    ensures
        x.secs <= c.secs,
{
    let a = tf.spec_amount();
    time_of_day_parts(t);
    time_of_day_parts(x);
    time_splits(t);
    time_splits(x);
    match tf.spec_unit() {
        TimeFrameUnit::Second => {
            remainder_taken_off(t.second(), a);
            if x.secs as int / 60 == t.secs as int / 60 {
                multiple_is_at_most(x.second(), t.second(), a);
            }
        },
        TimeFrameUnit::Minute => {
            remainder_taken_off(t.minute(), a);
            if x.secs as int / 3600 == t.secs as int / 3600 {
                assert(x.minute() <= t.minute());
                multiple_is_at_most(x.minute(), t.minute(), a);
            }
        },
        TimeFrameUnit::Hour => {
            remainder_taken_off(t.hour(), a);
            if x.days() == t.days() {
                assert(x.hour() <= t.hour());
                multiple_is_at_most(x.hour(), t.hour(), a);
            }
        },
        TimeFrameUnit::Day => {},
        TimeFrameUnit::Month => {
            every_time_has_a_date(t);
            let (y, m, d) = choose|y: int, m: int, d: int| dated(t, y, m, d);
            let (y2, m2) = choose|y2: int, m2: int| #[trigger] dated(x, y2, m2, 1);
            assert(c.secs == day_number(y, m, 1) * 86400);
            next_month_starts_after(y, m);
            if y < y2 || (y == y2 && m < m2) {
                months_start_in_order(y, m, y2, m2);
            } else if y2 < y || m2 < m {
                months_start_in_order(y2, m2, y, m);
                next_month_starts_after(y2, m2);
            }
        },
    }
}

proof fn minute_of_hour(hours: int, k: int)
    requires
        0 <= k <= 60,
    ensures
        (hours * 3600 + k * 60) % 60 == 0,
        (hours * 3600 + k * 60) / 60 % 60 == (if k == 60 {
            0
        } else {
            k
        }),
{
    assert(hours * 3600 + k * 60 == (hours * 60 + k) * 60);
    assert((hours * 60 + k) * 60 / 60 == hours * 60 + k);
}

proof fn hour_of_day(days: int, k: int)
    requires
        0 <= k <= 24,
    ensures
        (days * 86400 + k * 3600) % 60 == 0,
        (days * 86400 + k * 3600) / 60 % 60 == 0,
        (days * 86400 + k * 3600) / 3600 % 24 == (if k == 24 {
            0
        } else {
            k
        }),
{
    assert(days * 86400 + k * 3600 == (days * 24 + k) * 3600);
    assert((days * 24 + k) * 3600 / 3600 == days * 24 + k);
    assert((days * 24 + k) * 3600 / 60 == (days * 24 + k) * 60);
}

proof fn zero_divides(a: int)
    by (nonlinear_arith)
    requires
        a > 0,
    ensures
        0int % a == 0,
{
}

proof fn next_minute_is_aligned(tf: TimeFrame, t: UtcTime, r: UtcTime)
    requires
        tf.wf(),
        t.wf(),
        !t.leap(),
        tf.is_next(t, r),
        tf.spec_unit() is Minute,
        60int % tf.spec_amount() == 0,
    ensures
        aligned(tf.spec_amount(), tf.spec_unit(), r),
{
    let a = tf.spec_amount();
    time_of_day_parts(t);
    next_multiple_is_within(t.minute(), a, 60);
    zero_divides(a);
    let k = t.minute() - t.minute() % a + a;
    let hours = t.secs as int / 3600;
    assert(t.secs as int == hours * 3600 + t.minute() * 60 + t.second());
    remainder_is_at_most(t.minute(), a);
    assert(r.secs == hours * 3600 + k * 60);
    minute_of_hour(hours, k);
}

proof fn next_hour_is_aligned(tf: TimeFrame, t: UtcTime, r: UtcTime)
    requires
        tf.wf(),
        t.wf(),
        !t.leap(),
        tf.is_next(t, r),
        tf.spec_unit() is Hour,
        24int % tf.spec_amount() == 0,
    ensures
        aligned(tf.spec_amount(), tf.spec_unit(), r),
{
    let a = tf.spec_amount();
    time_of_day_parts(t);
    time_splits(t);
    next_multiple_is_within(t.hour(), a, 24);
    zero_divides(a);
    let k = t.hour() - t.hour() % a + a;
    remainder_is_at_most(t.hour(), a);
    assert(r.secs == t.days() * 86400 + k * 3600);
    hour_of_day(t.days(), k);
}

proof fn next_month_is_aligned(tf: TimeFrame, t: UtcTime, r: UtcTime)
    requires
        tf.wf(),
        t.wf(),
        tf.is_next(t, r),
        r.wf(),
        tf.spec_unit() is Month,
    ensures
        aligned(tf.spec_amount(), tf.spec_unit(), r),
{
    every_time_has_a_date(t);
    let (y, m, d) = choose|y: int, m: int, d: int| dated(t, y, m, d);
    assert(r.secs == first_of_next_month(y, m) * 86400);
    assert(r.days() == first_of_next_month(y, m));
    if m < 12 {
        assert(dated(r, y, m + 1, 1));
    } else if y < MAX_YEAR {
        assert(dated(r, y + 1, 1, 1));
    } else {
        time_splits(r);
    }
}

/// The boundary after a time, outside leap seconds, is a boundary where the time frame divides the
/// next greater unit: minute, hour or day. Days and months always do.
pub proof fn next_increment_is_aligned(tf: TimeFrame, t: UtcTime, r: UtcTime)
    requires
        tf.wf(),
        t.wf(),
        !t.leap(),
        tf.is_next(t, r),
        r.wf(),
        match tf.spec_unit() {
            TimeFrameUnit::Second | TimeFrameUnit::Minute => 60int % tf.spec_amount() == 0,
            TimeFrameUnit::Hour => 24int % tf.spec_amount() == 0,
            TimeFrameUnit::Day | TimeFrameUnit::Month => true,
        },
    ensures
        aligned(tf.spec_amount(), tf.spec_unit(), r),
{
    match tf.spec_unit() {
        TimeFrameUnit::Second => {
            time_of_day_parts(t);
            next_multiple_is_within(t.second(), tf.spec_amount(), 60);
            next_second_is_aligned_within_the_minute(tf, t, r);
        },
        TimeFrameUnit::Minute => next_minute_is_aligned(tf, t, r),
        TimeFrameUnit::Hour => next_hour_is_aligned(tf, t, r),
        TimeFrameUnit::Day => {},
        TimeFrameUnit::Month => next_month_is_aligned(tf, t, r),
    }
}

/// A time frame has 1 to 59 seconds or minutes, 1 to 23 hours, one day, or one month; any other amount
/// is refused as one.
pub proof fn time_frames_have_sensible_amounts(
    amount: u8,
    unit: TimeFrameUnit,
    r: Result<TimeFrame, TimeFrameError>,
)
    requires
        call_ensures(TimeFrame::validate_time_frame, (amount, unit), r),
    ensures
        unit is Second || unit is Minute ==> (r is Ok <==> 1 <= amount <= 59),
        unit is Hour ==> (r is Ok <==> 1 <= amount <= 23),
        unit is Day || unit is Month ==> (r is Ok <==> amount == 1),
        r matches Ok(tf) ==> tf.spec_amount() == amount && tf.spec_unit() == unit,
        r matches Err(e) ==> e is InvalidTimeFrameAmount,
{
}

/// So many time frames later is so many seconds, minutes, hours or days later, outside leap seconds, as
/// far as that can be told.
pub proof fn sums_are_so_many_units_later(
    tf: TimeFrame,
    t: UtcTime,
    periods: int,
    r: Result<UtcTime, TimeFrameError>,
)
    requires
        tf.wf(),
        t.wf(),
        !t.leap(),
        !(tf.spec_unit() is Month),
        tf.is_sum(t, periods, r),
    ensures
        ({
            let unit = match tf.spec_unit() {
                TimeFrameUnit::Second => 1int,
                TimeFrameUnit::Minute => 60,
                TimeFrameUnit::Hour => 3600,
                _ => 86400,
            };
            let to = t.secs + unit * (tf.spec_amount() * periods);
            &&& r is Ok <==> -8_334_601_228_800 <= to <= 8_210_266_876_799
            &&& r matches Ok(u) ==> u.secs == to && u.nanos == t.nanos
            &&& r matches Err(e) ==> e is InvalidTimeFramePeriod
        }),
{
    whole_step(t, tf.step(periods));
}

/// So many months later is the same day of the month at the same time of the day, or the last day of a
/// month that is too short, as far as the year can be told.
pub proof fn months_later_keep_to_the_day(
    tf: TimeFrame,
    t: UtcTime,
    periods: int,
    r: Result<UtcTime, TimeFrameError>,
    y: int,
    m: int,
    d: int,
)
    requires
        tf.spec_unit() is Month,
        dated(t, y, m, d),
        tf.is_sum(t, periods, r),
    ensures
        ({
            let month = y * 12 + m - 1 + periods;
            let year = month / 12;
            let of_year = month % 12 + 1;
            let last = days_in_month(year, of_year);
            let day = if d <= last {
                d
            } else {
                last
            };
            &&& r is Ok <==> -262_143 <= year <= 262_142
            &&& r matches Ok(u) ==> u.secs == day_number(year, of_year, day) * 86400
                + t.time_of_day() && u.nanos == t.nanos
        }),
{
}

/// The boundaries of a time frame: the seconds of the minute, the whole minutes of the hour or the whole
/// hours of the day that the amount divides, midnight, and midnight of the first day of the month.
pub proof fn boundaries_are_where_the_amount_divides(
    tf: &TimeFrame,
    t: UtcTime,
    r: bool,
)
    requires
        t.wf(),
        call_ensures(TimeFrame::is_interval_valid, (tf, t), r),
    ensures
        ({
            let a = tf.spec_amount();
            let s = t.secs as int;
            let unit = tf.spec_unit();
            &&& unit is Second ==> (r <==> s % 60 % a == 0)
            &&& unit is Minute ==> (r <==> s % 60 == 0 && s / 60 % 60 % a == 0)
            &&& unit is Hour ==> (r <==> s % 60 == 0 && s / 60 % 60 == 0 && s / 3600 % 24 % a == 0)
            &&& unit is Day ==> (r <==> s % 86400 == 0)
            &&& unit is Month ==> (r <==> s % 86400 == 0 && exists|y: int, m: int|
                dated(t, y, m, 1))
        }),
{
}

/// The boundary before a time is a whole second, a boundary, not after the time, and no other boundary
/// lies between them; and the one after it comes later.
pub proof fn boundaries_enclose_times(tf: &TimeFrame, t: UtcTime, c: UtcTime, n: UtcTime)
    requires
        tf.wf(),
        t.wf(),
        !t.leap(),
        call_ensures(TimeFrame::get_current_time_increment, (tf, t), c),
        call_ensures(TimeFrame::get_next_time_increment, (tf, t), n),
    ensures
        c.nanos == 0 && n.nanos == 0,
        aligned(tf.spec_amount(), tf.spec_unit(), c),
        c.secs <= t.secs < n.secs,
        forall|x: UtcTime| #[trigger]
            aligned(tf.spec_amount(), tf.spec_unit(), x) && !t.before(x) ==> x.secs <= c.secs,
{
    current_increment_is_aligned(*tf, t, c);
    current_increment_is_not_after(*tf, t, c);
    next_increment_is_after(*tf, t, n);
    assert forall|x: UtcTime| #[trigger]
        aligned(tf.spec_amount(), tf.spec_unit(), x) && !t.before(x) implies x.secs <= c.secs by {
        no_boundary_lies_between(*tf, t, c, x);
    }
}

} // verus!
