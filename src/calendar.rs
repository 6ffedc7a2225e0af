use chrono::{Datelike, Timelike};
use vstd::prelude::*;

verus! {

/// The earliest year that the calendar engine supports.
pub const MIN_YEAR: i32 = -262143;

/// The latest year that the calendar engine supports.
pub const MAX_YEAR: i32 = 262142;

pub const NANOS_PER_SECOND: i64 = 1_000_000_000;

pub const SECONDS_PER_DAY: i64 = 86_400;

pub open spec fn is_leap_year(y: int) -> bool {
    (y % 4 == 0 && y % 100 != 0) || y % 400 == 0
}

pub open spec fn days_in_month(y: int, m: int) -> int {
    if m == 2 {
        if is_leap_year(y) {
            29
        } else {
            28
        }
    } else if m == 4 || m == 6 || m == 9 || m == 11 {
        30
    } else {
        31
    }
}

/// (y, m, d) names a day of the proleptic Gregorian calendar.
pub open spec fn is_valid_date(y: int, m: int, d: int) -> bool {
    1 <= m <= 12 && 1 <= d <= days_in_month(y, m)
}

pub open spec fn in_supported_years(y: int) -> bool {
    MIN_YEAR <= y <= MAX_YEAR
}

/// Days from 1970-01-01 to (y, m, d) in the proleptic Gregorian calendar
/// (years counted from March, eras of 400 years).
pub open spec fn days_from_civil(y: int, m: int, d: int) -> int {
    let yy = if m <= 2 { y - 1 } else { y };
    let era = yy / 400;
    let yoe = yy - era * 400;
    let mp = (m + 9) % 12;
    let doy = (153 * mp + 2) / 5 + d - 1;
    let doe = yoe * 365 + yoe / 4 - yoe / 100 + doy;
    era * 146097 + doe - 719468
}

pub open spec fn seconds_of_day(h: int, mi: int, s: int) -> int {
    (h * 60 + mi) * 60 + s
}

/// Nanoseconds from 1970-01-01T00:00:00 to the wall-clock reading of `dt`.
pub open spec fn local_nanos(dt: DateTime) -> int {
    (days_from_civil(dt.year as int, dt.month as int, dt.day as int) * SECONDS_PER_DAY
        + seconds_of_day(dt.hour as int, dt.minute as int, dt.second as int)) * NANOS_PER_SECOND
        + dt.nanosecond as int
}

/// Nanoseconds since the Unix epoch of the instant that `dt` names.
pub open spec fn utc_nanos(dt: DateTime) -> int {
    local_nanos(dt) - dt.offset * NANOS_PER_SECOND
}

/// `t` (nanoseconds from 1970-01-01T00:00:00) falls on a day of a supported year.
pub open spec fn in_supported_range(t: int) -> bool {
    days_from_civil(MIN_YEAR as int, 1, 1) * SECONDS_PER_DAY * NANOS_PER_SECOND <= t
        < (days_from_civil(MAX_YEAR as int, 12, 31) + 1) * SECONDS_PER_DAY * NANOS_PER_SECOND
}

/// A wall-clock date and time together with its fixed offset from UTC.
#[derive(Debug, Copy, Clone, PartialEq, Eq, Structural)]
pub struct DateTime {
    pub year: i32,
    pub month: u32,
    pub day: u32,
    pub hour: u32,
    pub minute: u32,
    pub second: u32,
    pub nanosecond: u32,
    /// Seconds east of UTC.
    pub offset: i32,
}

impl DateTime {
    /// Every field is in range and the date exists.
    pub open spec fn wf(&self) -> bool {
        &&& is_valid_date(self.year as int, self.month as int, self.day as int)
        &&& in_supported_years(self.year as int)
        &&& self.hour < 24
        &&& self.minute < 60
        &&& self.second < 60
        &&& self.nanosecond < NANOS_PER_SECOND
        &&& -SECONDS_PER_DAY < self.offset < SECONDS_PER_DAY
    }

    /// Tells whether `wf` holds.
    pub fn is_valid(&self) -> (r: bool)
        ensures
            r == self.wf(),
    {
        self.year >= MIN_YEAR && self.year <= MAX_YEAR && self.month >= 1 && self.month <= 12
            && self.day >= 1 && self.day <= month_length(self.year, self.month) && self.hour < 24
            && self.minute < 60 && self.second < 60 && self.nanosecond < 1_000_000_000
            && self.offset > -86_400 && self.offset < 86_400
    }
}

pub fn is_leap(y: i32) -> (r: bool)
    ensures
        r == is_leap_year(y as int),
{
    // shift by a multiple of 400 years so that the remainders are taken of a
    // non-negative number
    let shifted: i64 = y as i64 + 4_000_000_000;
    assert(shifted % 4 == (y as int) % 4 && shifted % 100 == (y as int) % 100 && shifted % 400
        == (y as int) % 400) by {
        vstd::arithmetic::div_mod::lemma_mod_add_multiples_vanish(y as int, 400);
        vstd::arithmetic::div_mod::lemma_mod_multiples_vanish(10_000_000, y as int, 400);
        vstd::arithmetic::div_mod::lemma_mod_multiples_vanish(40_000_000, y as int, 100);
        vstd::arithmetic::div_mod::lemma_mod_multiples_vanish(1_000_000_000, y as int, 4);
    }
    (shifted % 4 == 0 && shifted % 100 != 0) || shifted % 400 == 0
}

/// Number of days of month `m` (1 to 12) of year `y`.
pub fn month_length(y: i32, m: u32) -> (r: u32)
    requires
        1 <= m <= 12,
    ensures
        r == days_in_month(y as int, m as int),
{
    if m == 2 {
        if is_leap(y) {
            29
        } else {
            28
        }
    } else if m == 4 || m == 6 || m == 9 || m == 11 {
        30
    } else {
        31
    }
}

/// Relies on chrono's `NaiveDateTime::checked_add_signed`: it moves the wall
/// clock by the exact duration `secs` seconds plus `nanos` nanoseconds, and
/// returns `None` when the result leaves the years chrono supports.
#[verifier::external_body]
pub(crate) fn checked_add(dt: &DateTime, secs: i64, nanos: u32) -> (r: Option<DateTime>)
    requires
        dt.wf(),
        nanos < NANOS_PER_SECOND,
        -1_000_000_000_000_000 <= secs <= 1_000_000_000_000_000,
    ensures
        r is Some <==> in_supported_range(local_nanos(*dt) + secs * NANOS_PER_SECOND + nanos),
        r matches Some(s) ==> s.wf() && s.offset == dt.offset && local_nanos(s) == local_nanos(*dt)
            + secs * NANOS_PER_SECOND + nanos,
{
    let date = chrono::NaiveDate::from_ymd_opt(dt.year, dt.month, dt.day)?;
    let naive = date.and_hms_nano_opt(dt.hour, dt.minute, dt.second, dt.nanosecond)?;
    let shifted = naive.checked_add_signed(chrono::TimeDelta::new(secs, nanos)?)?;
    Some(DateTime {
        year: shifted.year(),
        month: shifted.month(),
        day: shifted.day(),
        hour: shifted.hour(),
        minute: shifted.minute(),
        second: shifted.second(),
        nanosecond: shifted.nanosecond(),
        offset: dt.offset,
    })
}


/// Relies on chrono's `NaiveDateTime::timestamp` (through `and_utc`): the whole
/// seconds from 1970-01-01T00:00:00 to the wall-clock reading, the fraction
/// dropped.
#[verifier::external_body]
pub(crate) fn local_timestamp(dt: &DateTime) -> (r: i64)
    requires
        dt.wf(),
    ensures
        r * NANOS_PER_SECOND + dt.nanosecond == local_nanos(*dt),
{
    let date = chrono::NaiveDate::from_ymd_opt(dt.year, dt.month, dt.day).unwrap();
    let naive = date.and_hms_nano_opt(dt.hour, dt.minute, dt.second, dt.nanosecond).unwrap();
    naive.and_utc().timestamp()
}

/// Relies on chrono's `DateTime::from_timestamp`: the UTC date and time
/// `secs` seconds plus `nanos` nanoseconds after the Unix epoch, `None` outside
/// the years chrono supports.
#[verifier::external_body]
pub(crate) fn utc_from_timestamp(secs: i64, nanos: u32) -> (r: Option<DateTime>)
    requires
        nanos < NANOS_PER_SECOND,
    ensures
        r is Some <==> in_supported_range(secs * NANOS_PER_SECOND + nanos),
        r matches Some(s) ==> s.wf() && s.offset == 0 && local_nanos(s) == secs * NANOS_PER_SECOND
            + nanos,
{
    let utc = chrono::DateTime::from_timestamp(secs, nanos)?;
    Some(DateTime {
        year: utc.year(),
        month: utc.month(),
        day: utc.day(),
        hour: utc.hour(),
        minute: utc.minute(),
        second: utc.second(),
        nanosecond: utc.nanosecond(),
        offset: 0,
    })
}

/// Floor division and the matching non-negative remainder.
pub fn floor_div_mod(x: i64, d: i64) -> (r: (i64, i64))
    requires
        d > 0,
    ensures
        r.0 == x as int / d as int,
        r.1 == x as int % d as int,
        0 <= r.1 < d,
{
    let wide = x as i128;
    let a: i128 = if wide >= 0 { wide } else { -wide };
    let q = a / (d as i128);
    let m = a % (d as i128);
    assert(a == d * q + m && 0 <= m < d) by {
        vstd::arithmetic::div_mod::lemma_fundamental_div_mod(a as int, d as int);
        vstd::arithmetic::div_mod::lemma_mod_bound(a as int, d as int);
    }
    assert(0 <= q <= a) by {
        vstd::arithmetic::div_mod::lemma_div_is_ordered_by_denominator(a as int, 1, d as int);
        vstd::arithmetic::div_mod::lemma_div_pos_is_pos(a as int, d as int);
    }
    if wide >= 0 {
        assert(x == q * d + m) by (nonlinear_arith)
            requires
                a == d * q + m,
                x == a,
        ;
        proof {
            vstd::arithmetic::div_mod::lemma_fundamental_div_mod_converse(
                x as int,
                d as int,
                q as int,
                m as int,
            );
        }
        (q as i64, m as i64)
    } else if m == 0 {
        assert(x == (-q) * d + 0) by (nonlinear_arith)
            requires
                a == d * q + m,
                m == 0,
                x == -a,
        ;
        proof {
            vstd::arithmetic::div_mod::lemma_fundamental_div_mod_converse(
                x as int,
                d as int,
                -q as int,
                0,
            );
        }
        (-q as i64, 0)
    } else {
        assert(q * 2 <= a) by (nonlinear_arith)
            requires
                a == d * q + m,
                d >= 2,
                q >= 0,
                m >= 0,
        ;
        assert(x == (-q - 1) * d + (d - m)) by (nonlinear_arith)
            requires
                a == d * q + m,
                x == -a,
        ;
        proof {
            vstd::arithmetic::div_mod::lemma_fundamental_div_mod_converse(
                x as int,
                d as int,
                -q - 1,
                (d - m) as int,
            );
        }
        ((-q - 1) as i64, (d as i128 - m) as i64)
    }
}

/// Bounds of the day number over the supported years.
pub proof fn lemma_days_bounded(y: int, m: int, d: int)
    requires
        in_supported_years(y),
        1 <= m <= 12,
        1 <= d <= 31,
    ensures
        -100_000_000 <= days_from_civil(y, m, d) <= 100_000_000,
{
    let yy = if m <= 2 { y - 1 } else { y };
    let era = yy / 400;
    let yoe = yy - era * 400;
    let mp = (m + 9) % 12;
    let doy = (153 * mp + 2) / 5 + d - 1;
    vstd::arithmetic::div_mod::lemma_fundamental_div_mod(yy, 400);
    vstd::arithmetic::div_mod::lemma_mod_bound(yy, 400);
    assert(-656 <= era <= 655) by {
        if yy >= 0 {
            vstd::arithmetic::div_mod::lemma_div_is_ordered(yy, 262_400, 400);
            vstd::arithmetic::div_mod::lemma_div_pos_is_pos(yy, 400);
        } else {
            vstd::arithmetic::div_mod::lemma_div_is_ordered(-262_400, yy, 400);
            vstd::arithmetic::div_mod::lemma_div_is_ordered(yy, 0, 400);
        }
    }
    assert(0 <= yoe < 400);
    vstd::arithmetic::div_mod::lemma_mod_bound(m + 9, 12);
    assert(0 <= doy < 400) by {
        vstd::arithmetic::div_mod::lemma_div_is_ordered(2, 153 * mp + 2, 5);
        vstd::arithmetic::div_mod::lemma_div_is_ordered(153 * mp + 2, 1685, 5);
    }
    assert(0 <= yoe / 4 <= 100) by {
        vstd::arithmetic::div_mod::lemma_div_is_ordered(0, yoe, 4);
        vstd::arithmetic::div_mod::lemma_div_is_ordered(yoe, 400, 4);
    }
    assert(0 <= yoe / 100 <= 4) by {
        vstd::arithmetic::div_mod::lemma_div_is_ordered(0, yoe, 100);
        vstd::arithmetic::div_mod::lemma_div_is_ordered(yoe, 400, 100);
    }
    assert(-656 * 146097 <= era * 146097 <= 655 * 146097) by (nonlinear_arith)
        requires
            -656 <= era <= 655,
    ;
    assert(0 <= yoe * 365 <= 399 * 365) by (nonlinear_arith)
        requires
            0 <= yoe < 400,
    ;
}

/// The whole seconds of the wall-clock reading of a well-formed `dt` stay
/// well inside 64 bits.
pub proof fn lemma_local_seconds_bounded(dt: DateTime, secs: int)
    requires
        dt.wf(),
        secs * NANOS_PER_SECOND + dt.nanosecond == local_nanos(dt),
    ensures
        -9_000_000_000_000 <= secs <= 9_000_000_000_000,
        secs == days_from_civil(dt.year as int, dt.month as int, dt.day as int) * SECONDS_PER_DAY
            + seconds_of_day(dt.hour as int, dt.minute as int, dt.second as int),
{
    let days = days_from_civil(dt.year as int, dt.month as int, dt.day as int);
    let sod = seconds_of_day(dt.hour as int, dt.minute as int, dt.second as int);
    lemma_days_bounded(dt.year as int, dt.month as int, dt.day as int);
    assert(secs * NANOS_PER_SECOND == (days * SECONDS_PER_DAY + sod) * NANOS_PER_SECOND);
    assert(secs == days * SECONDS_PER_DAY + sod) by (nonlinear_arith)
        requires
            secs * 1_000_000_000 == (days * 86_400 + sod) * 1_000_000_000,
    ;
    assert(0 <= sod < 86_400);
}

} // verus!
