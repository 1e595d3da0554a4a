//! ISO calendar dates, wall-clock times and their position on the epoch
//! time line.
//!
//! Every date is measured in whole days from 1970-01-01 and every date-time in
//! nanoseconds from 1970-01-01T00:00:00. Balancing, shifting and the
//! conversions from an instant are all stated over that one number.

use vstd::prelude::*;
use vstd::arithmetic::div_mod::{
    lemma_fundamental_div_mod, lemma_fundamental_div_mod_converse, lemma_mod_multiples_vanish,
};

use crate::error::TemporalError;
use crate::unix_time::EpochNanoseconds;

verus! {

/// Nanoseconds in one day.
pub const NS_PER_DAY: i128 = 86_400_000_000_000;

/// The largest distance from the epoch, in days, that a date may have.
pub const MAX_EPOCH_DAYS: i64 = 100_000_000;

/// The largest distance from the epoch, in nanoseconds, that an instant may have.
pub const NS_MAX_INSTANT: i128 = 8_640_000_000_000_000_000_000;

/// The quotient of `a` by a positive `b`, rounded towards negative infinity.
pub fn div_floor(a: i128, b: i128) -> (q: i128)
    requires
        b > 0,
    ensures
        q == a / b,
{
    let q = a / b;
    let r = a % b;
    if r < 0 {
        proof {
            let t = (-a) / (b as int);
            let m = (-a) % (b as int);
            lemma_fundamental_div_mod(-a, b as int);
            assert((-t - 1) * b + (b - m) == -(b * t + m)) by (nonlinear_arith);
            lemma_fundamental_div_mod_converse(a as int, b as int, -t - 1, b - m);
            assert(t <= b * t) by (nonlinear_arith)
                requires
                    b >= 1,
                    b * t + m == -a,
                    0 <= m < b,
                    a < 0,
            ;
        }
        q - 1
    } else {
        proof {
            if a < 0 {
                let t = (-a) / (b as int);
                lemma_fundamental_div_mod(-a, b as int);
                assert((-t) * b + 0 == -(b * t + 0)) by (nonlinear_arith);
                lemma_fundamental_div_mod_converse(a as int, b as int, -t, 0);
            }
        }
        q
    }
}

/// The remainder of `a` by a positive `b`, never negative.
pub fn mod_floor(a: i128, b: i128) -> (r: i128)
    requires
        b > 0,
    ensures
        r == a % b,
        0 <= r < b,
{
    let r = a % b;
    if r < 0 {
        proof {
            let t = (-a) / (b as int);
            let m = (-a) % (b as int);
            lemma_fundamental_div_mod(-a, b as int);
            assert((-t - 1) * b + (b - m) == -(b * t + m)) by (nonlinear_arith);
            lemma_fundamental_div_mod_converse(a as int, b as int, -t - 1, b - m);
        }
        r + b
    } else {
        proof {
            if a < 0 {
                let t = (-a) / (b as int);
                lemma_fundamental_div_mod(-a, b as int);
                assert((-t) * b + 0 == -(b * t + 0)) by (nonlinear_arith);
                lemma_fundamental_div_mod_converse(a as int, b as int, -t, 0);
            }
        }
        r
    }
}

/// Whether `year` has a February 29 in the proleptic Gregorian calendar.
pub open spec fn is_leap_year(year: int) -> bool {
    year % 4 == 0 && (year % 100 != 0 || year % 400 == 0)
}

/// The number of days of `year`.
pub open spec fn days_in_year(year: int) -> int {
    if is_leap_year(year) {
        366
    } else {
        365
    }
}

/// The number of days of `month` (1 to 12) in `year`.
pub open spec fn days_in_month(year: int, month: int) -> int {
    if month == 2 {
        if is_leap_year(year) {
            29
        } else {
            28
        }
    } else if month == 4 || month == 6 || month == 9 || month == 11 {
        30
    } else {
        31
    }
}

/// The days from 1970-01-01 to January 1 of `year`; negative before 1970.
pub open spec fn days_before_year(year: int) -> int {
    365 * (year - 1970) + (year - 1969) / 4 - (year - 1901) / 100 + (year - 1601) / 400
}

/// The days from January 1 of `year` to the first day of `month`: the sum of
/// the lengths of the months before it.
pub open spec fn days_before_month(year: int, month: int) -> int
    decreases month,
{
    if month <= 1 {
        0
    } else {
        days_before_month(year, month - 1) + days_in_month(year, month - 1)
    }
}

/// The days from 1970-01-01 to the given day. `month` and `day` may lie
/// outside their calendar ranges: months carry into years, days are counted
/// on from the first of the month.
pub open spec fn epoch_days_of(year: int, month: int, day: int) -> int {
    let y = year + (month - 1) / 12;
    let m = (month - 1) % 12 + 1;
    days_before_year(y) + days_before_month(y, m) + day - 1
}

/// Stepping the dividend by one steps the quotient exactly when the new
/// dividend is a multiple of the divisor.
proof fn lemma_div_step(x: int, k: int)
    requires
        k > 0,
    ensures
        (x + 1) / k == x / k + if (x + 1) % k == 0 {
            1int
        } else {
            0int
        },
{
    let q = x / k;
    let r = x % k;
    lemma_fundamental_div_mod(x, k);
    if r == k - 1 {
        assert(x + 1 == (q + 1) * k + 0) by (nonlinear_arith)
            requires
                x == k * q + r,
                r == k - 1,
        ;
        lemma_fundamental_div_mod_converse(x + 1, k, q + 1, 0);
    } else {
        assert(x + 1 == q * k + (r + 1)) by (nonlinear_arith)
            requires
                x == k * q + r,
        ;
        lemma_fundamental_div_mod_converse(x + 1, k, q, r + 1);
    }
}

/// Consecutive years lie one year's length apart, and 1970 starts at day 0:
/// together these fix `days_before_year`.
pub proof fn lemma_year_length(year: int)
    ensures
        days_before_year(1970) == 0,
        days_before_year(year + 1) == days_before_year(year) + days_in_year(year),
{
    lemma_div_step(year - 1969, 4);
    lemma_div_step(year - 1901, 100);
    lemma_div_step(year - 1601, 400);
    lemma_mod_multiples_vanish(-492, year, 4);
    lemma_mod_multiples_vanish(-19, year, 100);
    lemma_mod_multiples_vanish(-4, year, 400);
    assert(year % 400 == 0 ==> year % 100 == 0) by {
        lemma_fundamental_div_mod(year, 400);
        if year % 400 == 0 {
            lemma_fundamental_div_mod_converse(year, 100, 4 * (year / 400), 0);
        }
    }
    assert(year % 100 == 0 ==> year % 4 == 0) by {
        lemma_fundamental_div_mod(year, 100);
        if year % 100 == 0 {
            lemma_fundamental_div_mod_converse(year, 4, 25 * (year / 100), 0);
        }
    }
}

/// Later years start later, by at least 365 days a year.
pub proof fn lemma_days_before_year_monotonic(a: int, b: int)
    requires
        a <= b,
    ensures
        days_before_year(a) + 365 * (b - a) <= days_before_year(b),
        days_before_year(b) <= days_before_year(a) + 366 * (b - a),
    decreases b - a,
{
    if a < b {
        lemma_days_before_year_monotonic(a, b - 1);
        lemma_year_length(b - 1);
    }
}

/// The table of days before each month, and the year's length as the days
/// before a thirteenth month.
pub proof fn lemma_days_before_month(year: int)
    ensures
        days_before_month(year, 1) == 0,
        days_before_month(year, 2) == 31,
        days_before_month(year, 3) == days_in_year(year) - 306,
        days_before_month(year, 4) == days_in_year(year) - 275,
        days_before_month(year, 5) == days_in_year(year) - 245,
        days_before_month(year, 6) == days_in_year(year) - 214,
        days_before_month(year, 7) == days_in_year(year) - 184,
        days_before_month(year, 8) == days_in_year(year) - 153,
        days_before_month(year, 9) == days_in_year(year) - 122,
        days_before_month(year, 10) == days_in_year(year) - 92,
        days_before_month(year, 11) == days_in_year(year) - 61,
        days_before_month(year, 12) == days_in_year(year) - 31,
        days_before_month(year, 13) == days_in_year(year),
{
    reveal_with_fuel(days_before_month, 14);
}

/// Whether `year` is a leap year.
pub fn leap_year(year: i64) -> (r: bool)
    ensures
        r == is_leap_year(year as int),
{
    year % 4 == 0 && (year % 100 != 0 || year % 400 == 0)
}

/// The days from 1970-01-01 to January 1 of `year`.
pub fn year_start(year: i64) -> (r: i128)
    ensures
        r == days_before_year(year as int),
{
    let year: i128 = year as i128;
    365 * (year - 1970) + div_floor(year - 1969, 4) - div_floor(year - 1901, 100) + div_floor(
        year - 1601,
        400,
    )
}

/// The days from January 1 of `year` to the first of `month`; with 13 for
/// `month`, the length of the year.
pub fn month_start(year: i64, month: u8) -> (r: i64)
    requires
        1 <= month <= 13,
    ensures
        r == days_before_month(year as int, month as int),
        0 <= r <= 366,
{
    proof {
        lemma_days_before_month(year as int);
    }
    let extra: i64 = if leap_year(year) {
        1
    } else {
        0
    };
    match month {
        1 => 0,
        2 => 31,
        3 => 59 + extra,
        4 => 90 + extra,
        5 => 120 + extra,
        6 => 151 + extra,
        7 => 181 + extra,
        8 => 212 + extra,
        9 => 243 + extra,
        10 => 273 + extra,
        11 => 304 + extra,
        12 => 334 + extra,
        _ => 365 + extra,
    }
}

/// A calendar date of the proleptic Gregorian calendar.
#[derive(Debug, Clone, Copy, PartialEq, Eq, Structural)]
pub struct IsoDate {
    pub year: i32,
    pub month: u8,
    pub day: u8,
}

impl IsoDate {
    /// The month is one of the twelve and the day exists in it.
    pub open spec fn wf(self) -> bool {
        &&& 1 <= self.month <= 12
        &&& 1 <= self.day <= days_in_month(self.year as int, self.month as int)
    }

    /// The days from 1970-01-01 to this date.
    pub open spec fn epoch_days(self) -> int {
        epoch_days_of(self.year as int, self.month as int, self.day as int)
    }

    /// Whether `days` from the epoch is a date whose year fits the `year` field.
    pub open spec fn representable(days: int) -> bool {
        days_before_year(i32::MIN as int) <= days < days_before_year(i32::MAX as int + 1)
    }

    /// Whether the date lies within `MAX_EPOCH_DAYS` of the epoch.
    pub open spec fn in_day_range(days: int) -> bool {
        -(MAX_EPOCH_DAYS as int) <= days <= MAX_EPOCH_DAYS as int
    }

    /// Whether the fields name a day of the calendar.
    pub fn is_valid(&self) -> (r: bool)
        ensures
            r == self.wf(),
    {
        if self.month < 1 || self.month > 12 || self.day < 1 {
            return false;
        }
        let first: i64 = month_start(self.year as i64, self.month);
        let next: i64 = month_start(self.year as i64, self.month + 1);
        self.day as i64 <= next - first
    }

    /// The days from 1970-01-01 to this date.
    pub fn to_epoch_days(&self) -> (r: i64)
        requires
            self.wf(),
        ensures
            r == self.epoch_days(),
            IsoDate::representable(r as int),
    {
        proof {
            lemma_date_in_its_year(*self);
            lemma_days_before_year_monotonic(i32::MIN as int, self.year as int);
            lemma_days_before_year_monotonic(self.year as int + 1, i32::MAX as int + 1);
        }
        year_start(self.year as i64) as i64 + month_start(self.year as i64, self.month) + (
        self.day as i64) - 1
    }

    /// The date that lies `days` from 1970-01-01.
    pub fn from_epoch_days(days: i64) -> (r: IsoDate)
        requires
            IsoDate::representable(days as int),
        ensures
            r.wf(),
            r.epoch_days() == days,
    {
        proof {
            lemma_days_before_year_monotonic(i32::MIN as int, 1970);
            lemma_days_before_year_monotonic(1970, i32::MAX as int + 1);
        }
        // Four hundred years hold 146097 days: that gives a year close by, and the
        // two loops walk from it to the year that holds the day.
        let mut year: i64 = 1970 + div_floor(days as i128 * 400, 146097) as i64;
        while year_start(year) > days as i128
            invariant
                IsoDate::representable(days as int),
                i32::MIN - 1 <= year <= 3_000_000_000,
            decreases year - i32::MIN + 1,
        {
            proof {
                if year <= i32::MIN as int {
                    lemma_days_before_year_monotonic(year as int, i32::MIN as int);
                }
            }
            year = year - 1;
        }
        while year_start(year + 1) <= days as i128
            invariant
                IsoDate::representable(days as int),
                i32::MIN - 1 <= year <= 3_000_000_000,
                days_before_year(year as int) <= days,
            decreases 3_000_000_000 - year,
        {
            proof {
                lemma_days_before_year_monotonic(i32::MAX as int + 1, 3_000_000_001);
                if year >= 3_000_000_000 {
                    lemma_days_before_year_monotonic(3_000_000_001, year as int + 1);
                }
            }
            year = year + 1;
        }
        proof {
            if year > i32::MAX as int {
                lemma_days_before_year_monotonic(i32::MAX as int + 1, year as int);
            }
            if year < i32::MIN as int {
                lemma_days_before_year_monotonic(year as int + 1, i32::MIN as int);
            }
            lemma_year_length(year as int);
            lemma_days_before_month(year as int);
        }
        let day_of_year: i64 = days - year_start(year) as i64;
        let mut month: u8 = 1;
        while month < 12 && month_start(year, month + 1) <= day_of_year
            invariant
                1 <= month <= 12,
                days_before_month(year as int, month as int) <= day_of_year,
            decreases 12 - month,
        {
            month = month + 1;
        }
        let day: i64 = day_of_year - month_start(year, month) + 1;
        proof {
            assert(days_before_month(year as int, month as int + 1) == days_before_month(
                year as int,
                month as int,
            ) + days_in_month(year as int, month as int)) by {
                reveal_with_fuel(days_before_month, 2);
            }
        }
        IsoDate { year: year as i32, month, day: day as u8 }
    }

    /// Whether this date lies within `MAX_EPOCH_DAYS` of the epoch.
    pub fn is_valid_day_range(&self) -> (r: Result<(), TemporalError>)
        requires
            self.wf(),
        ensures
            r == if IsoDate::in_day_range(self.epoch_days()) {
                Ok::<(), TemporalError>(())
            } else {
                Err::<(), TemporalError>(TemporalError::DateOutOfRange)
            },
    {
        let days: i64 = self.to_epoch_days();
        if days < -MAX_EPOCH_DAYS || days > MAX_EPOCH_DAYS {
            return Err(TemporalError::DateOutOfRange);
        }
        Ok(())
    }
}

/// A well-formed date lies inside its own year.
pub proof fn lemma_date_in_its_year(date: IsoDate)
    requires
        date.wf(),
    ensures
        days_before_year(date.year as int) <= date.epoch_days() < days_before_year(
            date.year as int + 1,
        ),
        0 <= days_before_month(date.year as int, date.month as int),
        days_before_month(date.year as int, date.month as int) + date.day <= days_in_year(
            date.year as int,
        ),
{
    lemma_year_length(date.year as int);
    lemma_days_before_month(date.year as int);
}

/// Two well-formed dates that lie the same number of days from the epoch are
/// the same date.
pub proof fn lemma_epoch_days_injective(a: IsoDate, b: IsoDate)
    requires
        a.wf(),
        b.wf(),
        a.epoch_days() == b.epoch_days(),
    ensures
        a == b,
{
    lemma_date_in_its_year(a);
    lemma_date_in_its_year(b);
    if a.year < b.year {
        lemma_days_before_year_monotonic(a.year as int + 1, b.year as int);
    }
    if b.year < a.year {
        lemma_days_before_year_monotonic(b.year as int + 1, a.year as int);
    }
    lemma_days_before_month(a.year as int);
}

/// A wall-clock time of day, to the nanosecond.
#[derive(Debug, Clone, Copy, PartialEq, Eq, Structural)]
pub struct IsoTime {
    pub hour: u8,
    pub minute: u8,
    pub second: u8,
    pub millisecond: u16,
    pub microsecond: u16,
    pub nanosecond: u16,
}

/// The nanoseconds that the given time fields add up to. The fields may lie
/// outside their clock ranges.
pub open spec fn time_fields_ns(
    hour: int,
    minute: int,
    second: int,
    millisecond: int,
    microsecond: int,
    nanosecond: int,
) -> int {
    hour * 3_600_000_000_000 + minute * 60_000_000_000 + second * 1_000_000_000 + millisecond
        * 1_000_000 + microsecond * 1_000 + nanosecond
}

impl IsoTime {
    /// Every field lies within its clock range.
    pub open spec fn wf(self) -> bool {
        &&& self.hour < 24
        &&& self.minute < 60
        &&& self.second < 60
        &&& self.millisecond < 1000
        &&& self.microsecond < 1000
        &&& self.nanosecond < 1000
    }

    /// The nanoseconds since midnight.
    pub open spec fn ns_of_day(self) -> int {
        time_fields_ns(
            self.hour as int,
            self.minute as int,
            self.second as int,
            self.millisecond as int,
            self.microsecond as int,
            self.nanosecond as int,
        )
    }

    /// The time `hour`:00:00 sharp.
    pub open spec fn spec_at_hour(hour: u8) -> IsoTime {
        IsoTime { hour, minute: 0, second: 0, millisecond: 0, microsecond: 0, nanosecond: 0 }
    }

    /// The time `hour`:00:00 sharp.
    pub fn at_hour(hour: u8) -> (r: IsoTime)
        ensures
            r == IsoTime::spec_at_hour(hour),
    {
        IsoTime { hour, minute: 0, second: 0, millisecond: 0, microsecond: 0, nanosecond: 0 }
    }

    /// Whether every field lies within its clock range.
    pub fn is_valid(&self) -> (r: bool)
        ensures
            r == self.wf(),
    {
        self.hour < 24 && self.minute < 60 && self.second < 60 && self.millisecond < 1000
            && self.microsecond < 1000 && self.nanosecond < 1000
    }

    /// The nanoseconds since midnight.
    pub fn to_ns_of_day(&self) -> (r: i64)
        requires
            self.wf(),
        ensures
            r == self.ns_of_day(),
            0 <= r < NS_PER_DAY,
    {
        (self.hour as i64) * 3_600_000_000_000 + (self.minute as i64) * 60_000_000_000 + (
        self.second as i64) * 1_000_000_000 + (self.millisecond as i64) * 1_000_000 + (
        self.microsecond as i64) * 1_000 + (self.nanosecond as i64)
    }

    /// The time that lies `ns` nanoseconds after midnight.
    pub fn from_ns_of_day(ns: i64) -> (r: IsoTime)
        requires
            0 <= ns < NS_PER_DAY,
        ensures
            r.wf(),
            r.ns_of_day() == ns,
    {
        let hour: i64 = ns / 3_600_000_000_000;
        let in_hour: i64 = ns % 3_600_000_000_000;
        let minute: i64 = in_hour / 60_000_000_000;
        let in_minute: i64 = in_hour % 60_000_000_000;
        let second: i64 = in_minute / 1_000_000_000;
        let in_second: i64 = in_minute % 1_000_000_000;
        let millisecond: i64 = in_second / 1_000_000;
        let in_milli: i64 = in_second % 1_000_000;
        let microsecond: i64 = in_milli / 1_000;
        let nanosecond: i64 = in_milli % 1_000;
        IsoTime {
            hour: hour as u8,
            minute: minute as u8,
            second: second as u8,
            millisecond: millisecond as u16,
            microsecond: microsecond as u16,
            nanosecond: nanosecond as u16,
        }
    }
}

/// Two well-formed times that lie the same number of nanoseconds after
/// midnight are the same time.
pub proof fn lemma_ns_of_day_injective(a: IsoTime, b: IsoTime)
    requires
        a.wf(),
        b.wf(),
        a.ns_of_day() == b.ns_of_day(),
    ensures
        a == b,
{
    let rest_a = a.minute * 60_000_000_000 + a.second * 1_000_000_000 + a.millisecond * 1_000_000
        + a.microsecond * 1_000 + a.nanosecond;
    let rest_b = b.minute * 60_000_000_000 + b.second * 1_000_000_000 + b.millisecond * 1_000_000
        + b.microsecond * 1_000 + b.nanosecond;
    assert(0 <= rest_a < 3_600_000_000_000 && 0 <= rest_b < 3_600_000_000_000);
    assert(a.hour == b.hour);
    let sec_a = a.second * 1_000_000_000 + a.millisecond * 1_000_000 + a.microsecond * 1_000
        + a.nanosecond;
    let sec_b = b.second * 1_000_000_000 + b.millisecond * 1_000_000 + b.microsecond * 1_000
        + b.nanosecond;
    assert(0 <= sec_a < 60_000_000_000 && 0 <= sec_b < 60_000_000_000);
    assert(a.minute == b.minute);
    let ms_a = a.millisecond * 1_000_000 + a.microsecond * 1_000 + a.nanosecond;
    let ms_b = b.millisecond * 1_000_000 + b.microsecond * 1_000 + b.nanosecond;
    assert(0 <= ms_a < 1_000_000_000 && 0 <= ms_b < 1_000_000_000);
    assert(a.second == b.second);
    assert(a.millisecond == b.millisecond);
    assert(a.microsecond == b.microsecond);
}

/// A calendar date with a wall-clock time.
#[derive(Debug, Clone, Copy, PartialEq, Eq, Structural)]
pub struct IsoDateTime {
    pub date: IsoDate,
    pub time: IsoTime,
}

/// The nanoseconds from 1970-01-01T00:00:00 to the moment that the fields
/// add up to. Only the year is taken as it stands: every other field may lie
/// outside its range and carries into the next larger one.
pub open spec fn fields_epoch_ns(
    year: int,
    month: int,
    day: int,
    hour: int,
    minute: int,
    second: int,
    millisecond: int,
    microsecond: int,
    nanosecond: int,
) -> int {
    epoch_days_of(year, month, day) * NS_PER_DAY + time_fields_ns(
        hour,
        minute,
        second,
        millisecond,
        microsecond,
        nanosecond,
    )
}

impl IsoDateTime {
    /// The date exists and the time lies within a day.
    pub open spec fn wf(self) -> bool {
        self.date.wf() && self.time.wf()
    }

    /// The nanoseconds from 1970-01-01T00:00:00 to this date-time.
    pub open spec fn epoch_ns(self) -> int {
        self.date.epoch_days() * NS_PER_DAY + self.time.ns_of_day()
    }

    /// Whether the moment `ns` from the epoch falls in a year that fits the
    /// `year` field.
    pub open spec fn representable(ns: int) -> bool {
        IsoDate::representable(ns / (NS_PER_DAY as int))
    }

    /// The date-time that lies `ns` nanoseconds from 1970-01-01T00:00:00.
    /// There is exactly one whenever `representable(ns)`.
    pub open spec fn at(ns: int) -> IsoDateTime {
        choose|dt: IsoDateTime| dt.wf() && dt.epoch_ns() == ns
    }

    /// The date at midnight plus the hour given.
    pub open spec fn spec_on(date: IsoDate, hour: u8) -> IsoDateTime {
        IsoDateTime { date, time: IsoTime::spec_at_hour(hour) }
    }

    /// Puts a date and a time together without looking at either.
    pub fn new_unchecked(date: IsoDate, time: IsoTime) -> (r: Self)
        ensures
            r == (IsoDateTime { date, time }),
    {
        IsoDateTime { date, time }
    }

    /// Whether the date exists and the time lies within a day.
    pub fn is_valid(&self) -> (r: bool)
        ensures
            r == self.wf(),
    {
        self.date.is_valid() && self.time.is_valid()
    }

    /// The date-time that lies `ns` nanoseconds from 1970-01-01T00:00:00.
    pub fn from_epoch_ns(ns: i128) -> (r: Self)
        requires
            IsoDateTime::representable(ns as int),
        ensures
            r.wf(),
            r.epoch_ns() == ns,
            r == IsoDateTime::at(ns as int),
    {
        let days: i128 = div_floor(ns, NS_PER_DAY);
        let in_day: i128 = mod_floor(ns, NS_PER_DAY);
        proof {
            lemma_days_before_year_monotonic(i32::MIN as int, 1970);
            lemma_days_before_year_monotonic(1970, i32::MAX as int + 1);
        }
        let date = IsoDate::from_epoch_days(days as i64);
        let time = IsoTime::from_ns_of_day(in_day as i64);
        let r = IsoDateTime { date, time };
        proof {
            lemma_at(r);
        }
        r
    }

    /// Carries every field that lies outside its range into the next larger
    /// one. The moment that the fields add up to stays the same. Fails where
    /// that moment falls in a year that the `year` field cannot hold.
    pub fn balance(
        year: i32,
        month: i32,
        day: i32,
        hour: i64,
        minute: i64,
        second: i64,
        millisecond: i64,
        microsecond: i64,
        nanosecond: i128,
    ) -> (r: Result<Self, TemporalError>)
        ensures
            r == IsoDateTime::spec_balance(
                fields_epoch_ns(
                    year as int,
                    month as int,
                    day as int,
                    hour as int,
                    minute as int,
                    second as int,
                    millisecond as int,
                    microsecond as int,
                    nanosecond as int,
                ),
            ),
            r matches Ok(balanced) ==> balanced.wf() && balanced.epoch_ns() == fields_epoch_ns(
                year as int,
                month as int,
                day as int,
                hour as int,
                minute as int,
                second as int,
                millisecond as int,
                microsecond as int,
                nanosecond as int,
            ),
    {
        let carried_year: i64 = year as i64 + div_floor(month as i128 - 1, 12) as i64;
        let carried_month: u8 = (mod_floor(month as i128 - 1, 12) + 1) as u8;
        let days: i64 = year_start(carried_year) as i64 + month_start(
            carried_year,
            carried_month,
        ) + (day as i64) - 1;
        let coarse: i128 = (days as i128) * NS_PER_DAY + (hour as i128) * 3_600_000_000_000 + (
        minute as i128) * 60_000_000_000 + (second as i128) * 1_000_000_000 + (millisecond as i128)
            * 1_000_000 + (microsecond as i128) * 1_000;
        proof {
            lemma_days_before_year_monotonic(i32::MIN as int, 1970);
            lemma_days_before_year_monotonic(1970, i32::MAX as int + 1);
        }
        match coarse.checked_add(nanosecond) {
            None => Err(TemporalError::DateOutOfRange),
            Some(ns) => {
                let whole_days: i128 = div_floor(ns, NS_PER_DAY);
                if whole_days < year_start(i32::MIN as i64) || whole_days >= year_start(
                    i32::MAX as i64 + 1,
                ) {
                    Err(TemporalError::DateOutOfRange)
                } else {
                    Ok(IsoDateTime::from_epoch_ns(ns))
                }
            },
        }
    }

    /// What `balance` returns for fields that add up to the moment `ns`.
    pub open spec fn spec_balance(ns: int) -> Result<IsoDateTime, TemporalError> {
        if IsoDateTime::representable(ns) {
            Ok(IsoDateTime::at(ns))
        } else {
            Err(TemporalError::DateOutOfRange)
        }
    }

    /// The instant at which this date-time is read on a clock at UTC.
    pub fn as_nanoseconds(&self) -> (r: EpochNanoseconds)
        requires
            self.wf(),
        ensures
            r.0 == self.epoch_ns(),
    {
        let days: i64 = self.date.to_epoch_days();
        proof {
            lemma_days_before_year_monotonic(i32::MIN as int, 1970);
            lemma_days_before_year_monotonic(1970, i32::MAX as int + 1);
        }
        EpochNanoseconds((days as i128) * NS_PER_DAY + (self.time.to_ns_of_day() as i128))
    }

    /// The date-time read at `epoch` on a clock that runs `offset`
    /// nanoseconds ahead of UTC.
    pub fn from_epoch_nanos(epoch: &EpochNanoseconds, offset: i64) -> (r: Self)
        requires
            epoch.spec_is_valid(),
        ensures
            r.wf(),
            r.epoch_ns() == epoch.0 + offset,
            r == IsoDateTime::at(epoch.0 + offset),
    {
        proof {
            lemma_days_before_year_monotonic(i32::MIN as int, 1970);
            lemma_days_before_year_monotonic(1970, i32::MAX as int + 1);
        }
        IsoDateTime::from_epoch_ns(epoch.0 + (offset as i128))
    }

    /// This date-time moved by `ns` nanoseconds, forward or backward, unless
    /// that leaves the range of days.
    pub fn add_nanoseconds(&self, ns: i128) -> (r: Result<Self, TemporalError>)
        requires
            self.wf(),
        ensures
            r == IsoDateTime::spec_add_nanoseconds(*self, ns as int),
            r matches Ok(moved) ==> moved.wf() && moved.epoch_ns() == self.epoch_ns() + ns,
    {
        let base: i128 = self.as_nanoseconds().0;
        proof {
            lemma_date_in_its_year(self.date);
            lemma_days_before_year_monotonic(i32::MIN as int, self.date.year as int);
            lemma_days_before_year_monotonic(self.date.year as int + 1, i32::MAX as int + 1);
            lemma_days_before_year_monotonic(i32::MIN as int, 1970);
            lemma_days_before_year_monotonic(1970, i32::MAX as int + 1);
        }
        match base.checked_add(ns) {
            None => Err(TemporalError::DateOutOfRange),
            Some(moved) => {
                let days: i128 = div_floor(moved, NS_PER_DAY);
                if days < -(MAX_EPOCH_DAYS as i128) || days > MAX_EPOCH_DAYS as i128 {
                    Err(TemporalError::DateOutOfRange)
                } else {
                    Ok(IsoDateTime::from_epoch_ns(moved))
                }
            },
        }
    }

    /// What `add_nanoseconds` returns.
    pub open spec fn spec_add_nanoseconds(dt: IsoDateTime, ns: int) -> Result<
        IsoDateTime,
        TemporalError,
    > {
        let moved = dt.epoch_ns() + ns;
        if IsoDate::in_day_range(moved / (NS_PER_DAY as int)) {
            Ok(IsoDateTime::at(moved))
        } else {
            Err(TemporalError::DateOutOfRange)
        }
    }
}

/// Two well-formed date-times that lie the same number of nanoseconds from
/// the epoch are the same date-time.
pub proof fn lemma_epoch_ns_injective(a: IsoDateTime, b: IsoDateTime)
    requires
        a.wf(),
        b.wf(),
        a.epoch_ns() == b.epoch_ns(),
    ensures
        a == b,
{
    assert(0 <= a.time.ns_of_day() < NS_PER_DAY);
    assert(0 <= b.time.ns_of_day() < NS_PER_DAY);
    assert(a.date.epoch_days() == b.date.epoch_days());
    lemma_epoch_days_injective(a.date, b.date);
    lemma_ns_of_day_injective(a.time, b.time);
}

/// From a year that starts on or before the day `days`, the year that holds
/// the day.
proof fn lemma_year_holding(start: int, days: int) -> (year: int)
    requires
        days_before_year(start) <= days,
    ensures
        start <= year,
        days_before_year(year) <= days < days_before_year(year + 1),
    decreases days - days_before_year(start),
{
    lemma_year_length(start);
    if days < days_before_year(start + 1) {
        start
    } else {
        lemma_year_holding(start + 1, days)
    }
}

/// From a month that starts on or before the day `day_of_year` of `year`,
/// the month that holds the day.
proof fn lemma_month_holding(year: int, start: int, day_of_year: int) -> (month: int)
    requires
        1 <= start <= 12,
        days_before_month(year, start) <= day_of_year < days_in_year(year),
    ensures
        1 <= month <= 12,
        days_before_month(year, month) <= day_of_year < days_before_month(year, month)
            + days_in_month(year, month),
    decreases 12 - start,
{
    lemma_days_before_month(year);
    assert(days_before_month(year, start + 1) == days_before_month(year, start) + days_in_month(
        year,
        start,
    )) by {
        reveal_with_fuel(days_before_month, 2);
    }
    if day_of_year < days_before_month(year, start + 1) {
        start
    } else {
        lemma_month_holding(year, start + 1, day_of_year)
    }
}

/// Every day whose year fits the `year` field is a date.
pub proof fn lemma_date_exists(days: int) -> (date: IsoDate)
    requires
        IsoDate::representable(days),
    ensures
        date.wf(),
        date.epoch_days() == days,
{
    let year = lemma_year_holding(i32::MIN as int, days);
    if year > i32::MAX {
        lemma_days_before_year_monotonic(i32::MAX as int + 1, year);
    }
    lemma_year_length(year);
    lemma_days_before_month(year);
    let day_of_year = days - days_before_year(year);
    let month = lemma_month_holding(year, 1, day_of_year);
    let day = day_of_year - days_before_month(year, month) + 1;
    IsoDate { year: year as i32, month: month as u8, day: day as u8 }
}

/// Every nanosecond of a day is a time.
pub proof fn lemma_time_exists(ns: int) -> (time: IsoTime)
    requires
        0 <= ns < NS_PER_DAY,
    ensures
        time.wf(),
        time.ns_of_day() == ns,
{
    let hour = ns / 3_600_000_000_000;
    let in_hour = ns % 3_600_000_000_000;
    let minute = in_hour / 60_000_000_000;
    let in_minute = in_hour % 60_000_000_000;
    let second = in_minute / 1_000_000_000;
    let in_second = in_minute % 1_000_000_000;
    let millisecond = in_second / 1_000_000;
    let in_milli = in_second % 1_000_000;
    let microsecond = in_milli / 1_000;
    let nanosecond = in_milli % 1_000;
    IsoTime {
        hour: hour as u8,
        minute: minute as u8,
        second: second as u8,
        millisecond: millisecond as u16,
        microsecond: microsecond as u16,
        nanosecond: nanosecond as u16,
    }
}

/// Every moment whose year fits the `year` field is a date-time, and `at`
/// gives it.
pub proof fn lemma_at_exists(ns: int)
    requires
        IsoDateTime::representable(ns),
    ensures
        IsoDateTime::at(ns).wf(),
        IsoDateTime::at(ns).epoch_ns() == ns,
{
    let date = lemma_date_exists(ns / (NS_PER_DAY as int));
    let time = lemma_time_exists(ns % (NS_PER_DAY as int));
    let found = IsoDateTime { date, time };
    lemma_fundamental_div_mod(ns, NS_PER_DAY as int);
    assert(found.wf() && found.epoch_ns() == ns);
}

/// Every moment within a billion days of the epoch falls in a year that fits
/// the `year` field.
pub proof fn lemma_representable(ns: int)
    requires
        -1_000_000_000 * NS_PER_DAY <= ns <= 1_000_000_000 * NS_PER_DAY,
    ensures
        IsoDateTime::representable(ns),
{
    lemma_days_before_year_monotonic(i32::MIN as int, 1970);
    lemma_days_before_year_monotonic(1970, i32::MAX as int + 1);
}

/// A well-formed date-time is the one that `at` gives for its own position.
pub proof fn lemma_at(dt: IsoDateTime)
    requires
        dt.wf(),
    ensures
        IsoDateTime::at(dt.epoch_ns()) == dt,
{
    let found = IsoDateTime::at(dt.epoch_ns());
    assert(found.wf() && found.epoch_ns() == dt.epoch_ns());
    lemma_epoch_ns_injective(found, dt);
}

/// The days of a well-formed date-time are the whole days of its position.
pub proof fn lemma_epoch_ns_days(dt: IsoDateTime)
    requires
        dt.wf(),
    ensures
        dt.epoch_ns() / (NS_PER_DAY as int) == dt.date.epoch_days(),
        dt.epoch_ns() % (NS_PER_DAY as int) == dt.time.ns_of_day(),
{
    assert(0 <= dt.time.ns_of_day() < NS_PER_DAY);
    lemma_fundamental_div_mod_converse(
        dt.epoch_ns(),
        NS_PER_DAY as int,
        dt.date.epoch_days(),
        dt.time.ns_of_day(),
    );
}

} // verus!
