use vstd::prelude::*;

use crate::delta::sign_len;
use crate::text::{decimal_value, digit_run, digit_run_at, digits_value};

verus! {

/// Why an offset text was refused; each holds the text.
#[derive(Debug, PartialEq)]
pub enum OffsetError {
    Format(String),
    Hour(String),
    Minute(String),
}

impl OffsetError {
    pub fn is_wrong_format(&self) -> (r: bool)
        ensures
            r == (self is Format),
    {
        match self {
            OffsetError::Format(_) => true,
            _ => false,
        }
    }

    pub fn is_wrong_hour(&self) -> (r: bool)
        ensures
            r == (self is Hour),
    {
        match self {
            OffsetError::Hour(_) => true,
            _ => false,
        }
    }

    pub fn is_wrong_minute(&self) -> (r: bool)
        ensures
            r == (self is Minute),
    {
        match self {
            OffsetError::Minute(_) => true,
            _ => false,
        }
    }
}

/// The written sign of an offset; no sign means east, as `+` does.
#[derive(Debug, Copy, Clone, PartialEq, Eq, Structural)]
pub enum OffsetSign {
    Unsigned,
    Plus,
    Minus,
}

impl OffsetSign {
    /// `value` with this sign.
    pub fn apply(self, value: i32) -> (r: i32)
        requires
            value > i32::MIN,
        ensures
            self is Minus ==> r == -value,
            !(self is Minus) ==> r == value,
    {
        match self {
            OffsetSign::Unsigned | OffsetSign::Plus => value,
            OffsetSign::Minus => -value,
        }
    }
}

/// An offset from UTC: a sign, hours (0 to 23) and minutes (0 to 59).
#[derive(Debug, Copy, Clone, PartialEq, Eq, Structural)]
pub struct Offset {
    pub sign: OffsetSign,
    pub h: i32,
    pub m: i32,
}

/// The fields of an offset text, before the ranges are checked: `[+-]?` then
/// either four digits (`hhmm`) or one or two digits of hours, optionally
/// followed by `:` and one or two digits of minutes.
pub open spec fn offset_fields(s: Seq<char>) -> Option<(int, int)> {
    let a = sign_len(s);
    let run = digit_run(s, a);
    if run == 4 && a + 4 == s.len() {
        Some((digits_value(s.subrange(a, a + 2)), digits_value(s.subrange(a + 2, a + 4))))
    } else if 1 <= run <= 2 && a + run == s.len() {
        Some((digits_value(s.subrange(a, a + run)), 0))
    } else if 1 <= run <= 2 && a + run < s.len() && s[a + run] == ':' && 1 <= digit_run(
        s,
        a + run + 1,
    ) <= 2 && a + run + 1 + digit_run(s, a + run + 1) == s.len() {
        Some(
            (
                digits_value(s.subrange(a, a + run)),
                digits_value(s.subrange(a + run + 1, s.len() as int)),
            ),
        )
    } else {
        None
    }
}

pub open spec fn offset_sign(s: Seq<char>) -> OffsetSign {
    if sign_len(s) == 0 {
        OffsetSign::Unsigned
    } else if s[0] == '+' {
        OffsetSign::Plus
    } else {
        OffsetSign::Minus
    }
}

/// The offset that a text denotes, if it denotes one.
pub open spec fn offset_of(s: Seq<char>) -> Option<Offset> {
    match offset_fields(s) {
        Some((h, m)) => if 0 <= h <= 23 && 0 <= m <= 59 {
            Some(Offset { sign: offset_sign(s), h: h as i32, m: m as i32 })
        } else {
            None
        },
        None => None,
    }
}

/// Reads `s[from..to]`, digits known to be there, as a number.
fn small_number(s: &str, from: usize, to: usize) -> (r: i32)
    requires
        from <= to <= s@.len(),
        to - from <= 4,
        crate::text::all_digits(s@.subrange(from as int, to as int)),
    ensures
        r == digits_value(s@.subrange(from as int, to as int)),
{
    proof {
        crate::text::lemma_small_digits_value(s@.subrange(from as int, to as int));
    }
    match decimal_value(s, from, to) {
        Some(v) => v as i32,
        None => 0,
    }
}

impl Offset {
    /// Parses an offset such as `+09:00`, `-1000`, `+5:45` or `9`.
    pub fn from_str(text: &str) -> (r: Result<Offset, OffsetError>)
        ensures
            r is Ok <==> offset_of(text@) is Some,
            r matches Ok(o) ==> offset_of(text@) == Some(o) && 0 <= o.h <= 23 && 0 <= o.m <= 59,
            offset_fields(text@) is None ==> match r {
                Err(OffsetError::Format(t)) => t@ == text@,
                _ => false,
            },
            offset_fields(text@) matches Some(f) ==> {
                let (h, m) = f;
                &&& !(0 <= h <= 23) ==> r is Err && r->Err_0 is Hour
                &&& 0 <= h <= 23 && !(0 <= m <= 59) ==> r is Err && r->Err_0 is Minute
                &&& 0 <= h <= 23 && 0 <= m <= 59 ==> r == Ok::<Offset, OffsetError>(
                    Offset { sign: offset_sign(text@), h: h as i32, m: m as i32 },
                )
            },
    {
        let len = text.unicode_len();
        let sign = if len > 0 && text.get_char(0) == '+' {
            OffsetSign::Plus
        } else if len > 0 && text.get_char(0) == '-' {
            OffsetSign::Minus
        } else {
            OffsetSign::Unsigned
        };
        let a: usize = if sign == OffsetSign::Unsigned {
            0
        } else {
            1
        };
        assert(a == sign_len(text@) && sign == offset_sign(text@));
        let run = digit_run_at(text, a);
        let h: i32;
        let m: i32;
        if run == 4 && a + 4 == len {
            proof {
                crate::text::lemma_all_digits_subrange(text@, a as int, a + 4, a as int, a + 2);
                crate::text::lemma_all_digits_subrange(text@, a as int, a + 4, a + 2, a + 4);
            }
            h = small_number(text, a, a + 2);
            m = small_number(text, a + 2, a + 4);
        } else if 1 <= run && run <= 2 && a + run == len {
            h = small_number(text, a, a + run);
            m = 0;
        } else if 1 <= run && run <= 2 && a + run < len && text.get_char(a + run) == ':' {
            let run2 = digit_run_at(text, a + run + 1);
            if 1 <= run2 && run2 <= 2 && a + run + 1 + run2 == len {
                h = small_number(text, a, a + run);
                m = small_number(text, a + run + 1, a + run + 1 + run2);
            } else {
                return Err(OffsetError::Format(String::from_str(text)));
            }
        } else {
            return Err(OffsetError::Format(String::from_str(text)));
        }
        if h < 0 || h > 23 {
            return Err(OffsetError::Hour(String::from_str(text)));
        }
        if m < 0 || m > 59 {
            return Err(OffsetError::Minute(String::from_str(text)));
        }
        Ok(Offset { sign, h, m })
    }

    /// Seconds east of UTC.
    pub fn to_seconds(self) -> (r: i32)
        requires
            0 <= self.h <= 23,
            0 <= self.m <= 59,
        ensures
            self.sign is Minus ==> r == -(self.h * 3600 + self.m * 60),
            !(self.sign is Minus) ==> r == self.h * 3600 + self.m * 60,
            -86_400 < r < 86_400,
    {
        self.sign.apply(self.h * 3600 + self.m * 60)
    }
}

} // verus!
