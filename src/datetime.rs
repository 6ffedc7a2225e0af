use vstd::prelude::*;

use crate::calendar::{is_valid_date, month_length, DateTime, SECONDS_PER_DAY};
use crate::text::{
    all_digits, decimal_value, digit_run, digit_run_at, digits_value, lemma_all_digits_subrange,
    lemma_small_digits_value,
};

verus! {

/// Why a date text was refused; each holds the text.
#[derive(Debug, PartialEq)]
pub enum YmdError {
    WrongFormat(String),
    /// The year and the accepted range of years.
    WrongYear(String, i32, i32),
    WrongMonth(String),
    WrongDay(String),
    WrongDate(String),
}

/// A date as written: year 1900 to 2999, month 1 to 12, day 1 to 31.
#[derive(Debug, Copy, Clone, PartialEq, Eq, Structural)]
pub struct Ymd {
    pub y: i32,
    pub m: u32,
    pub d: u32,
}

/// Why a time text was refused; each holds the text.
#[derive(Debug, PartialEq)]
pub enum HmsError {
    WrongFormat(String),
    WrongHour(String),
    WrongMinute(String),
    WrongSecond(String),
}

/// A time of day as written: hour 0 to 23, minute and second 0 to 59.
#[derive(Debug, Copy, Clone, PartialEq, Eq, Structural)]
pub struct Hms {
    pub h: u32,
    pub m: u32,
    pub s: u32,
}

pub open spec fn is_date_separator(c: char) -> bool {
    c == '-' || c == '/'
}

/// The three numbers of a text made of a group of `w` digits (`w` is 4 for a
/// date, 2 for a time) and two groups of two, either run together or each after
/// a separator; in the separated form the last two groups have one or two
/// digits and the first has exactly `w` digits for a date and one or two for a
/// time.
pub open spec fn three_fields(s: Seq<char>, w: int, sep: spec_fn(char) -> bool) -> Option<(int, int, int)> {
    let r1 = digit_run(s, 0);
    let r2 = digit_run(s, r1 + 1);
    let r3 = digit_run(s, r1 + r2 + 2);
    if r1 == w + 4 && s.len() == w + 4 {
        Some(
            (
                digits_value(s.subrange(0, w)),
                digits_value(s.subrange(w, w + 2)),
                digits_value(s.subrange(w + 2, w + 4)),
            ),
        )
    } else if (if w == 4 { r1 == 4 } else { 1 <= r1 <= 2 }) && r1 < s.len() && sep(s[r1]) && 1 <= r2
        <= 2 && r1 + r2 + 1 < s.len() && sep(s[r1 + r2 + 1]) && 1 <= r3 <= 2 && r1 + r2 + r3 + 2
        == s.len() {
        Some(
            (
                digits_value(s.subrange(0, r1)),
                digits_value(s.subrange(r1 + 1, r1 + r2 + 1)),
                digits_value(s.subrange(r1 + r2 + 2, s.len() as int)),
            ),
        )
    } else {
        None
    }
}

pub open spec fn ymd_fields(s: Seq<char>) -> Option<(int, int, int)> {
    three_fields(s, 4, |c: char| is_date_separator(c))
}

pub open spec fn hms_fields(s: Seq<char>) -> Option<(int, int, int)> {
    three_fields(s, 2, |c: char| c == ':')
}

/// The time that a time text denotes, if it denotes one.
pub open spec fn hms_of(s: Seq<char>) -> Option<Hms> {
    match hms_fields(s) {
        Some((h, m, sec)) => if 0 <= h <= 23 && 0 <= m <= 59 && 0 <= sec <= 59 {
            Some(Hms { h: h as u32, m: m as u32, s: sec as u32 })
        } else {
            None
        },
        None => None,
    }
}

/// The date that a date text denotes, if it passes the range checks.
pub open spec fn ymd_of(s: Seq<char>) -> Option<Ymd> {
    match ymd_fields(s) {
        Some((y, m, d)) => if 1900 <= y <= 2999 && 1 <= m <= 12 && 1 <= d <= 31 {
            Some(Ymd { y: y as i32, m: m as u32, d: d as u32 })
        } else {
            None
        },
        None => None,
    }
}

pub open spec fn as_u32_fields(f: Option<(int, int, int)>) -> Option<(u32, u32, u32)> {
    match f {
        Some((a, b, c)) => Some((a as u32, b as u32, c as u32)),
        None => None,
    }
}

fn small_number(s: &str, from: usize, to: usize) -> (r: u32)
    requires
        from <= to <= s@.len(),
        to - from <= 4,
        all_digits(s@.subrange(from as int, to as int)),
    ensures
        r == digits_value(s@.subrange(from as int, to as int)),
        r < 10_000,
        to - from <= 2 ==> r < 100,
{
    proof {
        lemma_small_digits_value(s@.subrange(from as int, to as int));
    }
    match decimal_value(s, from, to) {
        Some(v) => v as u32,
        None => 0,
    }
}

/// Splits a date (`w` = 4) or time (`w` = 2) text into its three numbers.
fn split_three(s: &str, w: usize, date: bool) -> (r: Option<(u32, u32, u32)>)
    requires
        date ==> w == 4,
        !date ==> w == 2,
    ensures
        date ==> r == as_u32_fields(ymd_fields(s@)),
        !date ==> r == as_u32_fields(hms_fields(s@)),
        date ==> (ymd_fields(s@) matches Some(f) ==> 0 <= f.0 < 10_000 && 0 <= f.1 < 100 && 0
            <= f.2 < 100),
        !date ==> (hms_fields(s@) matches Some(f) ==> 0 <= f.0 < 100 && 0 <= f.1 < 100 && 0 <= f.2
            < 100),
{
    let len = s.unicode_len();
    let r1 = digit_run_at(s, 0);
    if r1 == w + 4 && len == w + 4 {
        proof {
            lemma_all_digits_subrange(s@, 0, w + 4, 0, w as int);
            lemma_all_digits_subrange(s@, 0, w + 4, w as int, w + 2);
            lemma_all_digits_subrange(s@, 0, w + 4, w + 2, w + 4);
        }
        let a = small_number(s, 0, w);
        let b = small_number(s, w, w + 2);
        let c = small_number(s, w + 2, w + 4);
        return Some((a, b, c));
    }
    let first_ok = if date {
        r1 == 4
    } else {
        1 <= r1 && r1 <= 2
    };
    if !first_ok || r1 >= len {
        return None;
    }
    let c1 = s.get_char(r1);
    let sep1 = if date {
        c1 == '-' || c1 == '/'
    } else {
        c1 == ':'
    };
    if !sep1 {
        return None;
    }
    let r2 = digit_run_at(s, r1 + 1);
    if r2 < 1 || r2 > 2 || r1 + r2 + 1 >= len {
        return None;
    }
    let c2 = s.get_char(r1 + r2 + 1);
    let sep2 = if date {
        c2 == '-' || c2 == '/'
    } else {
        c2 == ':'
    };
    if !sep2 {
        return None;
    }
    let r3 = digit_run_at(s, r1 + r2 + 2);
    if r3 < 1 || r3 > 2 || r1 + r2 + r3 + 2 != len {
        return None;
    }
    let a = small_number(s, 0, r1);
    let b = small_number(s, r1 + 1, r1 + r2 + 1);
    let c = small_number(s, r1 + r2 + 2, len);
    Some((a, b, c))
}

impl Ymd {
    /// Parses `yyyyMMdd`, or `yyyy`, `M` and `d` separated by `-` or `/`, then
    /// checks the year, the month and the day (in that order) against their
    /// ranges.
    pub fn from_str(s: &str) -> (r: Result<Ymd, YmdError>)
        ensures
            r is Ok <==> ymd_of(s@) is Some,
            r matches Ok(d) ==> ymd_of(s@) == Some(d),
            ymd_fields(s@) is None ==> match r {
                Err(YmdError::WrongFormat(t)) => t@ == s@,
                _ => false,
            },
            ymd_fields(s@) matches Some(f) ==> {
                let (y, m, d) = f;
                &&& !(1900 <= y <= 2999) ==> match r {
                    Err(YmdError::WrongYear(t, lo, hi)) => t@ == s@ && lo == 1900 && hi == 2999,
                    _ => false,
                }
                &&& 1900 <= y <= 2999 && !(1 <= m <= 12) ==> r is Err && r->Err_0 is WrongMonth
                &&& 1900 <= y <= 2999 && 1 <= m <= 12 && !(1 <= d <= 31) ==> r is Err
                    && r->Err_0 is WrongDay
                &&& 1900 <= y <= 2999 && 1 <= m <= 12 && 1 <= d <= 31 ==> r == Ok::<
                    Ymd,
                    YmdError,
                >(Ymd { y: y as i32, m: m as u32, d: d as u32 })
            },
    {
        let fields = split_three(s, 4, true);
        match fields {
            None => Err(YmdError::WrongFormat(String::from_str(s))),
            Some((y, m, d)) => {
                if y < 1900 || y > 2999 {
                    Err(YmdError::WrongYear(String::from_str(s), 1900, 2999))
                } else if m < 1 || m > 12 {
                    Err(YmdError::WrongMonth(String::from_str(s)))
                } else if d < 1 || d > 31 {
                    Err(YmdError::WrongDay(String::from_str(s)))
                } else {
                    Ok(Ymd { y: y as i32, m, d })
                }
            },
        }
    }

    /// The start of this day at the given offset; `WrongDate` when the day does
    /// not exist.
    pub fn into_datetime(self, offset: i32) -> (r: Result<DateTime, YmdError>)
        requires
            1900 <= self.y <= 2999,
            -SECONDS_PER_DAY < offset < SECONDS_PER_DAY,
        ensures
            is_valid_date(self.y as int, self.m as int, self.d as int) ==> r == Ok::<
                DateTime,
                YmdError,
            >(
                DateTime {
                    year: self.y,
                    month: self.m,
                    day: self.d,
                    hour: 0,
                    minute: 0,
                    second: 0,
                    nanosecond: 0,
                    offset,
                },
            ),
            !is_valid_date(self.y as int, self.m as int, self.d as int) ==> r is Err
                && r->Err_0 is WrongDate,
            r matches Ok(dt) ==> dt.wf(),
    {
        if self.m < 1 || self.m > 12 || self.d < 1 || self.d > month_length(self.y, self.m) {
            return Err(YmdError::WrongDate(String::from_str("Date does not exist.")));
        }
        Ok(
            DateTime {
                year: self.y,
                month: self.m,
                day: self.d,
                hour: 0,
                minute: 0,
                second: 0,
                nanosecond: 0,
                offset,
            },
        )
    }
}

impl Hms {
    /// Parses `HHmmss`, or `H:m:s` with one or two digits each, then checks
    /// the hour, the minute and the second (in that order) against their ranges.
    pub fn from_str(text: &str) -> (r: Result<Hms, HmsError>)
        ensures
            r is Ok <==> hms_of(text@) is Some,
            r matches Ok(t) ==> hms_of(text@) == Some(t),
            hms_fields(text@) is None ==> match r {
                Err(HmsError::WrongFormat(t)) => t@ == text@,
                _ => false,
            },
            hms_fields(text@) matches Some(f) ==> {
                let (h, m, s) = f;
                &&& !(0 <= h <= 23) ==> r is Err && r->Err_0 is WrongHour
                &&& 0 <= h <= 23 && !(0 <= m <= 59) ==> r is Err && r->Err_0 is WrongMinute
                &&& 0 <= h <= 23 && 0 <= m <= 59 && !(0 <= s <= 59) ==> r is Err
                    && r->Err_0 is WrongSecond
                &&& 0 <= h <= 23 && 0 <= m <= 59 && 0 <= s <= 59 ==> r == Ok::<Hms, HmsError>(
                    Hms { h: h as u32, m: m as u32, s: s as u32 },
                )
            },
    {
        match split_three(text, 2, false) {
            None => Err(HmsError::WrongFormat(String::from_str(text))),
            Some((h, m, s)) => {
                if h > 23 {
                    Err(HmsError::WrongHour(String::from_str(text)))
                } else if m > 59 {
                    Err(HmsError::WrongMinute(String::from_str(text)))
                } else if s > 59 {
                    Err(HmsError::WrongSecond(String::from_str(text)))
                } else {
                    Ok(Hms { h, m, s })
                }
            },
        }
    }
}

} // verus!
