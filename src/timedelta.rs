use vstd::prelude::*;

use crate::calendar::{
    checked_add, in_supported_range, in_supported_years, is_valid_date, local_nanos,
    month_length, DateTime, MAX_YEAR, MIN_YEAR,
};

verus! {

/// Carry of a sign-magnitude division: the quotient of the magnitude, with the
/// sign of `x` (truncation toward zero).
pub open spec fn carry(x: int, modulus: int) -> int {
    if x >= 0 {
        x / modulus
    } else {
        -((-x) / modulus)
    }
}

/// What stays behind after the carry: same sign as `x`, magnitude below `modulus`.
pub open spec fn remainder(x: int, modulus: int) -> int {
    x - carry(x, modulus) * modulus
}

/// The seven signed counters of a delta, as mathematical integers.
pub struct DeltaModel {
    pub years: int,
    pub months: int,
    pub days: int,
    pub hours: int,
    pub minutes: int,
    pub seconds: int,
    pub microseconds: int,
}

pub open spec fn delta_model(
    years: int,
    months: int,
    days: int,
    hours: int,
    minutes: int,
    seconds: int,
    microseconds: int,
) -> DeltaModel {
    DeltaModel { years, months, days, hours, minutes, seconds, microseconds }
}

/// Carries overflow upward: microseconds into seconds, seconds into minutes,
/// minutes into hours, hours into days, and months into years. Days are never
/// carried into months.
pub open spec fn normalize(m: DeltaModel) -> DeltaModel {
    let s1 = m.seconds + carry(m.microseconds, 1_000_000);
    let mi1 = m.minutes + carry(s1, 60);
    let h1 = m.hours + carry(mi1, 60);
    DeltaModel {
        years: m.years + carry(m.months, 12),
        months: remainder(m.months, 12),
        days: m.days + carry(h1, 24),
        hours: remainder(h1, 24),
        minutes: remainder(mi1, 60),
        seconds: remainder(s1, 60),
        microseconds: remainder(m.microseconds, 1_000_000),
    }
}

/// Each carried field lies strictly inside (-modulus, modulus).
pub open spec fn is_normalized(m: DeltaModel) -> bool {
    &&& -12 < m.months < 12
    &&& -24 < m.hours < 24
    &&& -60 < m.minutes < 60
    &&& -60 < m.seconds < 60
    &&& -1_000_000 < m.microseconds < 1_000_000
}

pub open spec fn fits_i32(x: int) -> bool {
    i32::MIN <= x <= i32::MAX
}

/// The normalized form of `m` can be held in 32-bit counters.
pub open spec fn normal_form_fits(m: DeltaModel) -> bool {
    fits_i32(normalize(m).days) && fits_i32(normalize(m).years)
}

#[derive(Debug, Copy, Clone, PartialEq, Eq, Structural)]
struct DeltaValues {
    years: i32,
    months: i32,
    days: i32,
    hours: i32,
    minutes: i32,
    seconds: i32,
    microseconds: i32,
}

impl View for DeltaValues {
    type V = DeltaModel;

    closed spec fn view(&self) -> DeltaModel {
        DeltaModel {
            years: self.years as int,
            months: self.months as int,
            days: self.days as int,
            hours: self.hours as int,
            minutes: self.minutes as int,
            seconds: self.seconds as int,
            microseconds: self.microseconds as int,
        }
    }
}

fn sign_of(x: i64) -> (r: i64)
    ensures
        x > 0 ==> r == 1,
        x <= 0 ==> r == -1,
{
    if x > 0 {
        1
    } else {
        -1
    }
}

fn div_mod(x: i64, y: i64) -> (r: (i64, i64))
    requires
        x >= 0,
        y > 0,
    ensures
        r.0 == x / y,
        r.1 == x % y,
{
    (x / y, x % y)
}

/// One sign-magnitude stage: returns (carry, remainder) of `x` by `modulus`.
pub(crate) fn carry_stage(x: i64, modulus: i64) -> (r: (i64, i64))
    requires
        i64::MIN < x,
        modulus > 0,
    ensures
        r.0 == carry(x as int, modulus as int),
        r.1 == remainder(x as int, modulus as int),
{
    let sign = sign_of(x);
    let magnitude = if sign > 0 { x } else { -x };
    let (d, m) = div_mod(magnitude, modulus);
    assert(d * modulus + m == magnitude) by {
        vstd::arithmetic::div_mod::lemma_fundamental_div_mod(magnitude as int, modulus as int);
    }
    assert(0 <= d <= magnitude) by {
        vstd::arithmetic::div_mod::lemma_div_is_ordered_by_denominator(magnitude as int, 1, modulus as int);
        vstd::arithmetic::div_mod::lemma_div_pos_is_pos(magnitude as int, modulus as int);
    }
    assert(0 <= m < modulus) by {
        vstd::arithmetic::div_mod::lemma_mod_bound(magnitude as int, modulus as int);
    }
    if sign > 0 {
        assert(carry(x as int, modulus as int) == d);
        (d, m)
    } else {
        assert(carry(x as int, modulus as int) == -d);
        assert((-d) * modulus == -(d * modulus)) by (nonlinear_arith);
        (-d, -m)
    }
}


/// Sign-magnitude carry law: `carry * modulus + remainder` rebuilds `x`, the
/// remainder never has the opposite sign of `x`, and its magnitude stays below
/// the modulus.
pub proof fn lemma_carry_law(x: int, modulus: int)
    requires
        modulus > 0,
    ensures
        carry(x, modulus) * modulus + remainder(x, modulus) == x,
        x >= 0 ==> 0 <= remainder(x, modulus) < modulus,
        x < 0 ==> -modulus < remainder(x, modulus) <= 0,
        x >= 0 ==> 0 <= carry(x, modulus) <= x,
        x < 0 ==> x <= carry(x, modulus) <= 0,
{
    let a = if x >= 0 { x } else { -x };
    vstd::arithmetic::div_mod::lemma_fundamental_div_mod(a, modulus);
    vstd::arithmetic::div_mod::lemma_mod_bound(a, modulus);
    vstd::arithmetic::div_mod::lemma_div_pos_is_pos(a, modulus);
    vstd::arithmetic::div_mod::lemma_div_is_ordered_by_denominator(a, 1, modulus);
    assert(modulus * (a / modulus) == (a / modulus) * modulus) by (nonlinear_arith);
    assert(carry(x, modulus) == if x >= 0 { a / modulus } else { -(a / modulus) });
    if x < 0 {
        assert((-(a / modulus)) * modulus == -((a / modulus) * modulus)) by (nonlinear_arith);
        assert(remainder(x, modulus) == -(a % modulus));
    } else {
        assert(remainder(x, modulus) == a % modulus);
    }
}

/// A value below the modulus in magnitude carries nothing.
proof fn lemma_small_no_carry(x: int, modulus: int)
    requires
        modulus > 0,
        -modulus < x < modulus,
    ensures
        carry(x, modulus) == 0,
        remainder(x, modulus) == x,
{
    if x >= 0 {
        vstd::arithmetic::div_mod::lemma_basic_div(x, modulus);
    } else {
        vstd::arithmetic::div_mod::lemma_basic_div(-x, modulus);
    }
}

/// The output of `normalize` lies in the canonical ranges.
pub proof fn lemma_normalize_is_normalized(m: DeltaModel)
    ensures
        is_normalized(normalize(m)),
{
    let s1 = m.seconds + carry(m.microseconds, 1_000_000);
    let mi1 = m.minutes + carry(s1, 60);
    let h1 = m.hours + carry(mi1, 60);
    lemma_carry_law(m.microseconds, 1_000_000);
    lemma_carry_law(s1, 60);
    lemma_carry_law(mi1, 60);
    lemma_carry_law(h1, 24);
    lemma_carry_law(m.months, 12);
}

/// Normalizing an already normalized delta changes nothing, so normalizing
/// twice is the same as normalizing once.
pub proof fn lemma_normalize_idempotent(m: DeltaModel)
    ensures
        is_normalized(m) ==> normalize(m) == m,
        normalize(normalize(m)) == normalize(m),
{
    if is_normalized(m) {
        lemma_small_no_carry(m.microseconds, 1_000_000);
        lemma_small_no_carry(m.seconds, 60);
        lemma_small_no_carry(m.minutes, 60);
        lemma_small_no_carry(m.hours, 24);
        lemma_small_no_carry(m.months, 12);
    }
    let n = normalize(m);
    lemma_normalize_is_normalized(m);
    lemma_small_no_carry(n.microseconds, 1_000_000);
    lemma_small_no_carry(n.seconds, 60);
    lemma_small_no_carry(n.minutes, 60);
    lemma_small_no_carry(n.hours, 24);
    lemma_small_no_carry(n.months, 12);
}

/// Every carry moves whole units upward: normalizing keeps the total length of
/// the fixed part and the total number of months.
pub proof fn lemma_normalize_preserves_totals(m: DeltaModel)
    ensures
        duration_nanos(normalize(m)) == duration_nanos(m),
        total_months(normalize(m)) == total_months(m),
{
    let s1 = m.seconds + carry(m.microseconds, 1_000_000);
    let mi1 = m.minutes + carry(s1, 60);
    let h1 = m.hours + carry(mi1, 60);
    lemma_carry_law(m.microseconds, 1_000_000);
    lemma_carry_law(s1, 60);
    lemma_carry_law(mi1, 60);
    lemma_carry_law(h1, 24);
    lemma_carry_law(m.months, 12);
}

/// Days are never carried into months: the months and years of a normalized
/// delta do not depend on its days (or on any finer counter), so a delta made of
/// days alone keeps zero months and zero years.
pub proof fn lemma_days_never_carry_into_months(m: DeltaModel, days: int)
    ensures
        normalize(DeltaModel { days, ..m }).months == normalize(m).months,
        normalize(DeltaModel { days, ..m }).years == normalize(m).years,
        normalize(delta_model(0, 0, days, 0, 0, 0, 0)).months == 0,
        normalize(delta_model(0, 0, days, 0, 0, 0, 0)).years == 0,
{
    lemma_small_no_carry(0, 12);
}

/// A normalized delta: the seven counters after overflow has been carried upward.
#[derive(Debug, Copy, Clone, PartialEq, Eq, Structural)]
pub struct TimeDelta {
    values: DeltaValues,
}

impl View for TimeDelta {
    type V = DeltaModel;

    closed spec fn view(&self) -> DeltaModel {
        self.values@
    }
}

impl TimeDelta {
    /// Builds the normalized delta of the given counters.
    pub fn new(
        years: i32,
        months: i32,
        days: i32,
        hours: i32,
        minutes: i32,
        seconds: i32,
        microseconds: i32,
    ) -> (r: TimeDelta)
        requires
            normal_form_fits(
                delta_model(
                    years as int,
                    months as int,
                    days as int,
                    hours as int,
                    minutes as int,
                    seconds as int,
                    microseconds as int,
                ),
            ),
        ensures
            r@ == normalize(
                delta_model(
                    years as int,
                    months as int,
                    days as int,
                    hours as int,
                    minutes as int,
                    seconds as int,
                    microseconds as int,
                ),
            ),
            is_normalized(r@),
    {
        let ghost m = delta_model(
            years as int,
            months as int,
            days as int,
            hours as int,
            minutes as int,
            seconds as int,
            microseconds as int,
        );
        proof {
            lemma_normalize_is_normalized(m);
            lemma_carry_law(microseconds as int, 1_000_000);
        }
        // microseconds
        let (d, us) = carry_stage(microseconds as i64, 1_000_000);
        let seconds = seconds as i64 + d;
        proof {
            lemma_carry_law(seconds as int, 60);
        }
        // seconds
        let (d, s) = carry_stage(seconds, 60);
        let minutes = minutes as i64 + d;
        proof {
            lemma_carry_law(minutes as int, 60);
        }
        // minutes
        let (d, mi) = carry_stage(minutes, 60);
        let hours = hours as i64 + d;
        proof {
            lemma_carry_law(hours as int, 24);
        }
        // hours
        let (d, h) = carry_stage(hours, 24);
        let days = days as i64 + d;
        // days are never carried into months: a month has no fixed length.
        // months
        let (d, mo) = carry_stage(months as i64, 12);
        let years = years as i64 + d;
        TimeDelta {
            values: DeltaValues {
                years: years as i32,
                months: mo as i32,
                days: days as i32,
                hours: h as i32,
                minutes: mi as i32,
                seconds: s as i32,
                microseconds: us as i32,
            },
        }
    }

    /// Applies the delta to `target`: first the fixed-length part (days and
    /// finer) as an exact duration, then the months and years on the calendar,
    /// keeping the day of the month. `None` when the result leaves the supported
    /// years or names a day that does not exist.
    pub fn apply_datetime(&self, target: DateTime) -> (r: Option<DateTime>)
        requires
            target.wf(),
        ensures
            r matches Some(s) ==> s.wf() && s.offset == target.offset,
            !in_supported_range(local_nanos(target) + duration_nanos(self@)) ==> r is None,
            in_supported_range(local_nanos(target) + duration_nanos(self@)) ==> exists|s: DateTime|
                s.wf() && s.offset == target.offset && #[trigger] local_nanos(s) == local_nanos(
                    target,
                ) + duration_nanos(self@) && r == with_months_moved(s, total_months(self@)),
    {
        let v = self.values;
        let (carried, us) = carry_stage(v.microseconds as i64, 1_000_000);
        proof {
            lemma_carry_law(v.microseconds as int, 1_000_000);
        }
        let whole: i64 = v.days as i64 * 86_400 + v.hours as i64 * 3600 + v.minutes as i64 * 60
            + v.seconds as i64 + carried;
        let part: i64 = us * 1000;
        let (secs, nanos) = if part < 0 {
            (whole - 1, part + 1_000_000_000)
        } else {
            (whole, part)
        };
        assert(secs * 1_000_000_000 + nanos == duration_nanos(self@));
        match checked_add(&target, secs, nanos as u32) {
            None => None,
            Some(shifted) => {
                let months: i64 = v.years as i64 * 12 + v.months as i64;
                let r = move_months(shifted, months);
                assert(shifted.wf() && shifted.offset == target.offset && local_nanos(shifted)
                    == local_nanos(target) + duration_nanos(self@) && r == with_months_moved(
                    shifted,
                    total_months(self@),
                ));
                r
            },
        }
    }

    pub fn years(&self) -> (r: i32)
        ensures
            r == self@.years,
    {
        self.values.years
    }

    pub fn months(&self) -> (r: i32)
        ensures
            r == self@.months,
    {
        self.values.months
    }

    pub fn days(&self) -> (r: i32)
        ensures
            r == self@.days,
    {
        self.values.days
    }

    pub fn hours(&self) -> (r: i32)
        ensures
            r == self@.hours,
    {
        self.values.hours
    }

    pub fn minutes(&self) -> (r: i32)
        ensures
            r == self@.minutes,
    {
        self.values.minutes
    }

    pub fn seconds(&self) -> (r: i32)
        ensures
            r == self@.seconds,
    {
        self.values.seconds
    }

    pub fn microseconds(&self) -> (r: i32)
        ensures
            r == self@.microseconds,
    {
        self.values.microseconds
    }
}


/// The fixed-length part of a delta (days and finer) in nanoseconds.
pub open spec fn duration_nanos(m: DeltaModel) -> int {
    (((m.days * 24 + m.hours) * 60 + m.minutes) * 60 + m.seconds) * 1_000_000_000 + m.microseconds
        * 1000
}

/// The calendar part of a delta in months.
pub open spec fn total_months(m: DeltaModel) -> int {
    m.years * 12 + m.months
}

/// `dt` moved by `months` calendar months, keeping the day of the month and the
/// time of day; `None` when that day does not exist in the target month or the
/// target year is not supported.
pub open spec fn with_months_moved(dt: DateTime, months: int) -> Option<DateTime> {
    let index = dt.month - 1 + months;
    let y = dt.year + index / 12;
    let mo = index % 12 + 1;
    if in_supported_years(y) && is_valid_date(y, mo, dt.day as int) {
        Some(DateTime { year: y as i32, month: mo as u32, ..dt })
    } else {
        None
    }
}

/// Moves `dt` by `months` calendar months (see `with_months_moved`): the year and
/// month change, every other field stays.
pub fn move_months(dt: DateTime, months: i64) -> (r: Option<DateTime>)
    requires
        dt.wf(),
        -1_000_000_000_000 <= months <= 1_000_000_000_000,
    ensures
        r == with_months_moved(dt, months as int),
        r matches Some(s) ==> s.wf(),
{
    let sum: i64 = dt.month as i64 + months;
    let dy: i64;
    let mo: i64;
    if sum > 0 {
        dy = (sum - 1) / 12;
        mo = (sum - 1) % 12 + 1;
        assert(sum - 1 == dy * 12 + (mo - 1)) by {
            vstd::arithmetic::div_mod::lemma_fundamental_div_mod((sum - 1) as int, 12);
            vstd::arithmetic::div_mod::lemma_mod_bound((sum - 1) as int, 12);
        }
    } else {
        let a: i64 = -sum;
        dy = -(a / 12) - 1;
        mo = 12 - a % 12;
        assert(a == (a / 12) * 12 + a % 12 && 0 <= a % 12 < 12) by {
            vstd::arithmetic::div_mod::lemma_fundamental_div_mod(a as int, 12);
            vstd::arithmetic::div_mod::lemma_mod_bound(a as int, 12);
        }
    }
    assert(1 <= mo <= 12);
    proof {
        vstd::arithmetic::div_mod::lemma_fundamental_div_mod_converse(
            (sum - 1) as int,
            12,
            dy as int,
            (mo - 1) as int,
        );
    }
    let y: i64 = dt.year as i64 + dy;
    if y < MIN_YEAR as i64 || y > MAX_YEAR as i64 {
        return None;
    }
    if dt.day > month_length(y as i32, mo as u32) {
        return None;
    }
    Some(DateTime { year: y as i32, month: mo as u32, ..dt })
}

pub open spec fn zero_model() -> DeltaModel {
    delta_model(0, 0, 0, 0, 0, 0, 0)
}

/// Accumulates the seven counters of a delta; `build` normalizes them.
pub struct TimeDeltaBuilder {
    values: DeltaValues,
}

impl View for TimeDeltaBuilder {
    type V = DeltaModel;

    closed spec fn view(&self) -> DeltaModel {
        self.values@
    }
}

impl Default for TimeDeltaBuilder {
    fn default() -> (r: TimeDeltaBuilder)
        ensures
            r@ == zero_model(),
    {
        TimeDeltaBuilder {
            values: DeltaValues {
                years: 0,
                months: 0,
                days: 0,
                hours: 0,
                minutes: 0,
                seconds: 0,
                microseconds: 0,
            },
        }
    }
}

impl TimeDeltaBuilder {
    /// The counters accumulated so far, from years down to microseconds.
    pub(crate) fn current(&self) -> (r: (i32, i32, i32, i32, i32, i32, i32))
        ensures
            r.0 == self@.years && r.1 == self@.months && r.2 == self@.days && r.3 == self@.hours
                && r.4 == self@.minutes && r.5 == self@.seconds && r.6 == self@.microseconds,
    {
        let v = self.values;
        (v.years, v.months, v.days, v.hours, v.minutes, v.seconds, v.microseconds)
    }

    pub fn years(self, value: i32) -> (r: Self)
        ensures
            r@ == (DeltaModel { years: value as int, ..self@ }),
    {
        let mut b = self;
        b.values.years = value;
        b
    }

    pub fn add_years(self, value: i32) -> (r: Self)
        requires
            fits_i32(self@.years + value),
        ensures
            r@ == (DeltaModel { years: self@.years + value, ..self@ }),
    {
        let y = self.values.years + value;
        self.years(y)
    }

    pub fn months(self, value: i32) -> (r: Self)
        ensures
            r@ == (DeltaModel { months: value as int, ..self@ }),
    {
        let mut b = self;
        b.values.months = value;
        b
    }

    pub fn add_months(self, value: i32) -> (r: Self)
        requires
            fits_i32(self@.months + value),
        ensures
            r@ == (DeltaModel { months: self@.months + value, ..self@ }),
    {
        let m = self.values.months + value;
        self.months(m)
    }

    pub fn days(self, value: i32) -> (r: Self)
        ensures
            r@ == (DeltaModel { days: value as int, ..self@ }),
    {
        let mut b = self;
        b.values.days = value;
        b
    }

    pub fn add_days(self, value: i32) -> (r: Self)
        requires
            fits_i32(self@.days + value),
        ensures
            r@ == (DeltaModel { days: self@.days + value, ..self@ }),
    {
        let d = self.values.days + value;
        self.days(d)
    }

    pub fn hours(self, value: i32) -> (r: Self)
        ensures
            r@ == (DeltaModel { hours: value as int, ..self@ }),
    {
        let mut b = self;
        b.values.hours = value;
        b
    }

    pub fn add_hours(self, value: i32) -> (r: Self)
        requires
            fits_i32(self@.hours + value),
        ensures
            r@ == (DeltaModel { hours: self@.hours + value, ..self@ }),
    {
        let h = self.values.hours + value;
        self.hours(h)
    }

    pub fn minutes(self, value: i32) -> (r: Self)
        ensures
            r@ == (DeltaModel { minutes: value as int, ..self@ }),
    {
        let mut b = self;
        b.values.minutes = value;
        b
    }

    pub fn add_minutes(self, value: i32) -> (r: Self)
        requires
            fits_i32(self@.minutes + value),
        ensures
            r@ == (DeltaModel { minutes: self@.minutes + value, ..self@ }),
    {
        let m = self.values.minutes + value;
        self.minutes(m)
    }

    pub fn seconds(self, value: i32) -> (r: Self)
        ensures
            r@ == (DeltaModel { seconds: value as int, ..self@ }),
    {
        let mut b = self;
        b.values.seconds = value;
        b
    }

    pub fn add_seconds(self, value: i32) -> (r: Self)
        requires
            fits_i32(self@.seconds + value),
        ensures
            r@ == (DeltaModel { seconds: self@.seconds + value, ..self@ }),
    {
        let s = self.values.seconds + value;
        self.seconds(s)
    }

    /// Sets the seconds to the whole seconds of `value` milliseconds and the
    /// microseconds to the rest (both truncated toward zero).
    pub fn milliseconds(self, value: i32) -> (r: Self)
        ensures
            r@ == (DeltaModel {
                seconds: carry(value as int, 1000),
                microseconds: remainder(value as int, 1000) * 1000,
                ..self@
            }),
    {
        let (s, ms) = carry_stage(value as i64, 1000);
        proof {
            lemma_carry_law(value as int, 1000);
        }
        self.seconds(s as i32).microseconds((ms * 1000) as i32)
    }

    /// Adds `value` milliseconds: whole seconds to the seconds, the rest to the
    /// microseconds (both truncated toward zero).
    pub fn add_milliseconds(self, value: i32) -> (r: Self)
        requires
            fits_i32(self@.seconds + carry(value as int, 1000)),
            fits_i32(self@.microseconds + remainder(value as int, 1000) * 1000),
        ensures
            r@ == (DeltaModel {
                seconds: self@.seconds + carry(value as int, 1000),
                microseconds: self@.microseconds + remainder(value as int, 1000) * 1000,
                ..self@
            }),
    {
        let (s, ms) = carry_stage(value as i64, 1000);
        proof {
            lemma_carry_law(value as int, 1000);
        }
        self.add_seconds(s as i32).add_microseconds((ms * 1000) as i32)
    }

    pub fn microseconds(self, value: i32) -> (r: Self)
        ensures
            r@ == (DeltaModel { microseconds: value as int, ..self@ }),
    {
        let mut b = self;
        b.values.microseconds = value;
        b
    }

    pub fn add_microseconds(self, value: i32) -> (r: Self)
        requires
            fits_i32(self@.microseconds + value),
        ensures
            r@ == (DeltaModel { microseconds: self@.microseconds + value, ..self@ }),
    {
        let us = self.values.microseconds + value;
        self.microseconds(us)
    }

    /// Normalizes the accumulated counters into a delta.
    pub fn build(self) -> (r: TimeDelta)
        requires
            normal_form_fits(self@),
        ensures
            r@ == normalize(self@),
            is_normalized(r@),
    {
        let v = self.values;
        TimeDelta::new(v.years, v.months, v.days, v.hours, v.minutes, v.seconds, v.microseconds)
    }

    /// Like `build`, but returns `None` when the normalized days or years do
    /// not fit in 32 bits.
    pub fn try_build(self) -> (r: Option<TimeDelta>)
        ensures
            r is Some <==> normal_form_fits(self@),
            r matches Some(d) ==> d@ == normalize(self@) && is_normalized(d@),
    {
        let v = self.values;
        let (d, _us) = carry_stage(v.microseconds as i64, 1_000_000);
        proof {
            lemma_carry_law(v.microseconds as int, 1_000_000);
        }
        let seconds = v.seconds as i64 + d;
        let (d, _s) = carry_stage(seconds, 60);
        proof {
            lemma_carry_law(seconds as int, 60);
        }
        let minutes = v.minutes as i64 + d;
        let (d, _mi) = carry_stage(minutes, 60);
        proof {
            lemma_carry_law(minutes as int, 60);
        }
        let hours = v.hours as i64 + d;
        let (d, _h) = carry_stage(hours, 24);
        proof {
            lemma_carry_law(hours as int, 24);
        }
        let days = v.days as i64 + d;
        let (d, _mo) = carry_stage(v.months as i64, 12);
        proof {
            lemma_carry_law(v.months as int, 12);
        }
        let years = v.years as i64 + d;
        if days < i32::MIN as i64 || days > i32::MAX as i64 || years < i32::MIN as i64
            || years > i32::MAX as i64 {
            None
        } else {
            Some(self.build())
        }
    }
}

} // verus!
