use vstd::prelude::*;

use crate::find::{reports, FindByName};
use crate::text::{
    decimal_value, digit_run, digit_run_at, digits_value, is_ascii_letter, is_letter_char,
};
use crate::timedelta::{carry, fits_i32, remainder, DeltaModel, TimeDeltaBuilder};
use crate::unit::{unit_by_name, unit_names, TimeUnit, TimeUnitError};

verus! {

/// Why a delta text was refused.
#[derive(Debug, PartialEq)]
pub enum DeltaItemError {
    /// The text is not `<sign><digits><letters>`; holds the text.
    WrongFormat(String),
    /// The number does not fit in 32 bits.
    WrongValue(String),
    /// The letters name no unit, or several.
    WrongUnit(TimeUnitError),
}

impl DeltaItemError {
    pub fn is_wrong_format(&self) -> (r: bool)
        ensures
            r == (self is WrongFormat),
    {
        match self {
            DeltaItemError::WrongFormat(_) => true,
            _ => false,
        }
    }

    pub fn is_wrong_value(&self) -> (r: bool)
        ensures
            r == (self is WrongValue),
    {
        match self {
            DeltaItemError::WrongValue(_) => true,
            _ => false,
        }
    }

    pub fn is_wrong_unit(&self) -> (r: bool)
        ensures
            r == (self is WrongUnit),
    {
        match self {
            DeltaItemError::WrongUnit(_) => true,
            _ => false,
        }
    }
}

/// One signed quantity of a calendar unit, such as `+2mon` or `-10d`.
#[derive(Debug, Copy, Clone, PartialEq, Eq, Structural)]
pub struct DeltaItem {
    pub unit: TimeUnit,
    pub value: i32,
}

/// Length of the optional leading sign.
pub open spec fn sign_len(s: Seq<char>) -> int {
    if s.len() > 0 && (s[0] == '+' || s[0] == '-') {
        1
    } else {
        0
    }
}

/// Index just past the digits of a delta text.
pub open spec fn digits_end(s: Seq<char>) -> int {
    sign_len(s) + digit_run(s, sign_len(s))
}

/// `s` has the shape `[+-]?[0-9]+[A-Za-z]+`.
pub open spec fn is_delta_text(s: Seq<char>) -> bool {
    &&& digit_run(s, sign_len(s)) > 0
    &&& digits_end(s) < s.len()
    &&& forall|i: int| digits_end(s) <= i < s.len() ==> is_ascii_letter(#[trigger] s[i])
}

/// The signed number of a delta text.
pub open spec fn delta_value(s: Seq<char>) -> int {
    let magnitude = digits_value(s.subrange(sign_len(s), digits_end(s)));
    if sign_len(s) == 1 && s[0] == '-' {
        -magnitude
    } else {
        magnitude
    }
}

/// The unit letters of a delta text.
pub open spec fn delta_unit_text(s: Seq<char>) -> Seq<char> {
    s.subrange(digits_end(s), s.len() as int)
}

/// The item that a delta text denotes, if it denotes one.
pub open spec fn delta_item_of(s: Seq<char>) -> Option<DeltaItem> {
    if is_delta_text(s) && unit_by_name(delta_unit_text(s)) is Ok && fits_i32(delta_value(s)) {
        Some(
            DeltaItem {
                unit: unit_by_name(delta_unit_text(s))->Ok_0,
                value: delta_value(s) as i32,
            },
        )
    } else {
        None
    }
}

/// The counters after one item has been folded into `m`.
pub open spec fn add_item(m: DeltaModel, item: DeltaItem) -> DeltaModel {
    let v = item.value as int;
    match item.unit {
        TimeUnit::Year => DeltaModel { years: m.years + v, ..m },
        TimeUnit::Month => DeltaModel { months: m.months + v, ..m },
        TimeUnit::Day => DeltaModel { days: m.days + v, ..m },
        TimeUnit::Hour => DeltaModel { hours: m.hours + v, ..m },
        TimeUnit::Minute => DeltaModel { minutes: m.minutes + v, ..m },
        TimeUnit::Second => DeltaModel { seconds: m.seconds + v, ..m },
        TimeUnit::MilliSecond => DeltaModel {
            seconds: m.seconds + carry(v, 1000),
            microseconds: m.microseconds + remainder(v, 1000) * 1000,
            ..m
        },
    }
}

/// Every counter of `m` fits in 32 bits.
pub open spec fn model_fits(m: DeltaModel) -> bool {
    &&& fits_i32(m.years)
    &&& fits_i32(m.months)
    &&& fits_i32(m.days)
    &&& fits_i32(m.hours)
    &&& fits_i32(m.minutes)
    &&& fits_i32(m.seconds)
    &&& fits_i32(m.microseconds)
}

impl DeltaItem {
    pub fn new(unit: TimeUnit, value: i32) -> (r: DeltaItem)
        ensures
            r == (DeltaItem { unit, value }),
    {
        DeltaItem { unit, value }
    }

    /// Adds this item to the counter of its unit (milliseconds split into
    /// seconds and microseconds).
    pub fn apply_timedelta_builder(self, builder: TimeDeltaBuilder) -> (r: TimeDeltaBuilder)
        requires
            model_fits(add_item(builder@, self)),
        ensures
            r@ == add_item(builder@, self),
    {
        match self.unit {
            TimeUnit::Year => builder.add_years(self.value),
            TimeUnit::Month => builder.add_months(self.value),
            TimeUnit::Day => builder.add_days(self.value),
            TimeUnit::Hour => builder.add_hours(self.value),
            TimeUnit::Minute => builder.add_minutes(self.value),
            TimeUnit::Second => builder.add_seconds(self.value),
            TimeUnit::MilliSecond => builder.add_milliseconds(self.value),
        }
    }

    /// Parses `<sign><digits><unit>`. A text of another shape is a format
    /// error; otherwise an unresolved unit is reported first, then a number
    /// that does not fit in 32 bits.
    pub fn from_str(s: &str) -> (r: Result<DeltaItem, DeltaItemError>)
        ensures
            r is Ok <==> delta_item_of(s@) is Some,
            r matches Ok(d) ==> delta_item_of(s@) == Some(d),
            !is_delta_text(s@) ==> match r {
                Err(DeltaItemError::WrongFormat(t)) => t@ == s@,
                _ => false,
            },
            is_delta_text(s@) ==> match unit_by_name(delta_unit_text(s@)) {
                Err(found) => match r {
                    Err(DeltaItemError::WrongUnit(TimeUnitError::WrongName(e))) => reports(
                        e,
                        unit_names(),
                        found,
                    ),
                    _ => false,
                },
                Ok(u) => if fits_i32(delta_value(s@)) {
                    r == Ok::<DeltaItem, DeltaItemError>(
                        DeltaItem { unit: u, value: delta_value(s@) as i32 },
                    )
                } else {
                    r is Err && r->Err_0 is WrongValue
                },
            },
    {
        let len = s.unicode_len();
        let negative = len > 0 && s.get_char(0) == '-';
        let start: usize = if len > 0 && (s.get_char(0) == '+' || negative) {
            1
        } else {
            0
        };
        assert(start == sign_len(s@));
        let run = digit_run_at(s, start);
        let end = start + run;
        assert(end == digits_end(s@));
        if run == 0 || end >= len {
            return Err(DeltaItemError::WrongFormat(String::from_str(s)));
        }
        let mut i = end;
        while i < len
            invariant
                end <= i <= len,
                len == s@.len(),
                end == digits_end(s@),
                forall|j: int| end <= j < i ==> is_ascii_letter(#[trigger] s@[j]),
            decreases len - i,
        {
            if !is_letter_char(s.get_char(i)) {
                return Err(DeltaItemError::WrongFormat(String::from_str(s)));
            }
            i = i + 1;
        }
        let unit = match TimeUnit::find_by_name(s.substring_char(end, len)) {
            Ok(u) => u,
            Err(e) => {
                return Err(DeltaItemError::WrongUnit(e));
            },
        };
        match decimal_value(s, start, end) {
            None => Err(DeltaItemError::WrongValue(String::from_str("number too large to fit in target type"))),
            Some(magnitude) => {
                let value: i64 = if negative {
                    -magnitude
                } else {
                    magnitude
                };
                if value < i32::MIN as i64 || value > i32::MAX as i64 {
                    if negative {
                        Err(DeltaItemError::WrongValue(String::from_str("number too small to fit in target type")))
                    } else {
                        Err(DeltaItemError::WrongValue(String::from_str("number too large to fit in target type")))
                    }
                } else {
                    Ok(DeltaItem { unit, value: value as i32 })
                }
            },
        }
    }
}

/// Parses every text in order; stops at the first that is not a delta item
/// and returns its error.
pub fn parse_deltas(texts: &Vec<&str>) -> (r: Result<Vec<DeltaItem>, DeltaItemError>)
    ensures
        r is Ok <==> forall|i: int| 0 <= i < texts@.len() ==> delta_item_of(#[trigger] texts@[i]@) is Some,
        r matches Ok(items) ==> items@.len() == texts@.len() && forall|i: int|
            0 <= i < texts@.len() ==> delta_item_of(#[trigger] texts@[i]@) == Some(items@[i]),
{
    let mut items: Vec<DeltaItem> = Vec::new();
    let mut i: usize = 0;
    while i < texts.len()
        invariant
            i <= texts@.len(),
            items@.len() == i,
            forall|j: int| 0 <= j < i ==> delta_item_of(#[trigger] texts@[j]@) == Some(items@[j]),
        decreases texts@.len() - i,
    {
        match DeltaItem::from_str(texts[i]) {
            Ok(item) => items.push(item),
            Err(e) => {
                return Err(e);
            },
        }
        i = i + 1;
    }
    Ok(items)
}

/// Folding is commutative: adding two items in either order gives the same
/// counters, hence the same normalized delta.
pub proof fn lemma_fold_commutes(m: DeltaModel, a: DeltaItem, b: DeltaItem)
    ensures
        add_item(add_item(m, a), b) == add_item(add_item(m, b), a),
{
}

} // verus!
