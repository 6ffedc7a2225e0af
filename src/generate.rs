use vstd::prelude::*;

use crate::calendar::{
    in_supported_range, is_valid_date, local_nanos, utc_nanos, DateTime, NANOS_PER_SECOND,
};
use crate::datetime::{Hms, Ymd};
use crate::delta::{add_item, model_fits, DeltaItem};
use crate::error::UtErrorKind;
use crate::precision::{unit_nanos, Precision};
use crate::preset::{is_preset_date, preset_nanos, Preset};
use crate::timedelta::{
    carry_stage, duration_nanos, lemma_carry_law, normal_form_fits, normalize, total_months,
    with_months_moved, zero_model, DeltaModel, TimeDeltaBuilder,
};
use crate::unit::{truncated, TimeUnit};

verus! {

/// The counters after folding `items` in order into a fresh builder.
pub open spec fn fold_items(items: Seq<DeltaItem>) -> DeltaModel
    decreases items.len(),
{
    if items.len() == 0 {
        zero_model()
    } else {
        add_item(fold_items(items.drop_last()), items.last())
    }
}

/// Every partial fold of `items` fits in 32-bit counters.
pub open spec fn fold_fits(items: Seq<DeltaItem>) -> bool {
    forall|k: int| 0 <= k <= items.len() ==> model_fits(#[trigger] fold_items(items.take(k)))
}

/// What `generate` returns once the delta is known: the base moved by it, or
/// `WrongDate` when the result leaves the supported years or does not exist.
pub open spec fn generated_from(base: DateTime, m: DeltaModel, shifted: DateTime) -> Result<
    DateTime,
    UtErrorKind,
> {
    match with_months_moved(shifted, total_months(m)) {
        Some(dt) => Ok(dt),
        None => Err(UtErrorKind::WrongDate),
    }
}

/// What the command line gave for a generate request, already parsed.
pub struct GenerateOptions {
    pub timestamp: Option<i64>,
    pub preset: Option<Preset>,
    pub ymd: Option<Ymd>,
    pub hms: Option<Hms>,
    pub truncate: Option<TimeUnit>,
    pub deltas: Vec<DeltaItem>,
}

pub open spec fn truncate_opt(unit: Option<TimeUnit>, dt: DateTime) -> DateTime {
    match unit {
        Some(u) => truncated(u, dt),
        None => dt,
    }
}

/// The date of `date` with the time of `hms`; without one, midnight when a date
/// was given and the time of `now` otherwise; then truncated.
pub open spec fn assembled(
    date: DateTime,
    hms: Option<Hms>,
    has_date: bool,
    now: DateTime,
    unit: Option<TimeUnit>,
) -> DateTime {
    let dt = match hms {
        Some(t) => DateTime {
            hour: t.h,
            minute: t.m,
            second: t.s,
            nanosecond: 0,
            ..date
        },
        None => if has_date {
            DateTime { hour: 0, minute: 0, second: 0, nanosecond: 0, ..date }
        } else {
            DateTime { hour: now.hour, minute: now.minute, second: now.second, nanosecond: now.nanosecond, ..date }
        },
    };
    truncate_opt(unit, DateTime { offset: now.offset, ..dt })
}

impl GenerateOptions {
    /// The fields hold what their parsers accept.
    pub open spec fn wf(&self) -> bool {
        &&& self.ymd matches Some(y) ==> 1900 <= y.y <= 2999
        &&& self.hms matches Some(t) ==> t.h < 24 && t.m < 60 && t.s < 60
    }

    /// The base date and time of the request: a timestamp read in the given
    /// precision; otherwise the date of the preset, of the `ymd` or of `now`,
    /// with the time of the `hms`; then truncated to the requested unit.
    pub fn base_datetime(&self, now: DateTime, precision: Precision) -> (r: Result<DateTime, UtErrorKind>)
        requires
            now.wf(),
            self.wf(),
        ensures
            r matches Ok(dt) ==> dt.wf() && dt.offset == now.offset,
            self.timestamp matches Some(ts) ==> {
                let t = ts * unit_nanos(precision);
                &&& (r is Ok <==> in_supported_range(t) && in_supported_range(t + now.offset * NANOS_PER_SECOND))
                &&& r is Err ==> r == Err::<DateTime, UtErrorKind>(UtErrorKind::WrongDate)
                &&& r matches Ok(dt) ==> exists|s: DateTime|
                    s.wf() && s.offset == now.offset && #[trigger] utc_nanos(s) == t && dt == truncate_opt(
                        self.truncate,
                        s,
                    )
            },
            self.timestamp is None ==> match self.preset {
                Some(p) => {
                    &&& (r is Ok <==> in_supported_range(preset_nanos(p, now)))
                    &&& r is Err ==> r == Err::<DateTime, UtErrorKind>(UtErrorKind::PresetError)
                    &&& r matches Ok(dt) ==> exists|d: DateTime|
                        #[trigger] is_preset_date(p, now, d) && dt == assembled(
                            d,
                            self.hms,
                            true,
                            now,
                            self.truncate,
                        )
                },
                None => match self.ymd {
                    Some(y) => {
                        &&& is_valid_date(y.y as int, y.m as int, y.d as int) ==> r == Ok::<
                            DateTime,
                            UtErrorKind,
                        >(
                            assembled(
                                DateTime {
                                    year: y.y,
                                    month: y.m,
                                    day: y.d,
                                    hour: 0,
                                    minute: 0,
                                    second: 0,
                                    nanosecond: 0,
                                    offset: now.offset,
                                },
                                self.hms,
                                true,
                                now,
                                self.truncate,
                            ),
                        )
                        &&& !is_valid_date(y.y as int, y.m as int, y.d as int) ==> r == Err::<
                            DateTime,
                            UtErrorKind,
                        >(UtErrorKind::WrongDate)
                    },
                    None => r == Ok::<DateTime, UtErrorKind>(
                        assembled(now, self.hms, false, now, self.truncate),
                    ),
                },
            },
    {
        let base = if let Some(ts) = self.timestamp {
            match precision.parse_timestamp(now.offset, ts) {
                Some(dt) => dt,
                None => {
                    return Err(UtErrorKind::WrongDate);
                },
            }
        } else {
            let mut has_date = true;
            let date = if let Some(p) = self.preset {
                match p.as_datetime(now) {
                    Some(d) => d,
                    None => {
                        return Err(UtErrorKind::PresetError);
                    },
                }
            } else if let Some(y) = self.ymd {
                match y.into_datetime(now.offset) {
                    Ok(d) => d,
                    Err(_) => {
                        return Err(UtErrorKind::WrongDate);
                    },
                }
            } else {
                has_date = false;
                now
            };
            let dt = match self.hms {
                Some(t) => DateTime { hour: t.h, minute: t.m, second: t.s, nanosecond: 0, ..date },
                None => if has_date {
                    DateTime { hour: 0, minute: 0, second: 0, nanosecond: 0, ..date }
                } else {
                    DateTime {
                        hour: now.hour,
                        minute: now.minute,
                        second: now.second,
                        nanosecond: now.nanosecond,
                        ..date
                    }
                },
            };
            DateTime { offset: now.offset, ..dt }
        };
        match self.truncate {
            Some(unit) => Ok(unit.truncate(base)),
            None => Ok(base),
        }
    }
}

/// Folds the items, in order, into a fresh builder; `None` when a counter
/// would leave 32 bits on the way.
pub fn fold_deltas(items: &Vec<DeltaItem>) -> (r: Option<TimeDeltaBuilder>)
    ensures
        r is Some <==> fold_fits(items@),
        r matches Some(b) ==> b@ == fold_items(items@),
{
    let mut builder = TimeDeltaBuilder::default();
    let mut i: usize = 0;
    assert(items@.take(0) =~= Seq::<DeltaItem>::empty());
    while i < items.len()
        invariant
            i <= items@.len(),
            builder@ == fold_items(items@.take(i as int)),
            forall|k: int| 0 <= k <= i ==> model_fits(#[trigger] fold_items(items@.take(k))),
        decreases items@.len() - i,
    {
        let item = items[i];
        let ghost before = builder@;
        assert(items@.take(i + 1).drop_last() =~= items@.take(i as int));
        assert(fold_items(items@.take(i + 1)) == add_item(before, item));
        let fits = item_fits(&builder, item);
        if !fits {
            return None;
        }
        builder = item.apply_timedelta_builder(builder);
        i = i + 1;
    }
    assert(items@.take(items@.len() as int) =~= items@);
    Some(builder)
}

/// Folds the items into one normalized delta and applies it to `base`.
/// `DeltaError` when a counter leaves 32 bits; `WrongDate` when the result
/// leaves the supported years or names a day that does not exist.
pub fn generate(items: &Vec<DeltaItem>, base: DateTime) -> (r: Result<DateTime, UtErrorKind>)
    requires
        base.wf(),
    ensures
        r matches Ok(dt) ==> dt.wf() && dt.offset == base.offset,
        !fold_fits(items@) ==> r == Err::<DateTime, UtErrorKind>(UtErrorKind::DeltaError),
        fold_fits(items@) && !normal_form_fits(fold_items(items@)) ==> r == Err::<
            DateTime,
            UtErrorKind,
        >(UtErrorKind::DeltaError),
        fold_fits(items@) && normal_form_fits(fold_items(items@)) ==> {
            let m = normalize(fold_items(items@));
            let t = local_nanos(base) + duration_nanos(m);
            &&& !in_supported_range(t) ==> r == Err::<DateTime, UtErrorKind>(
                UtErrorKind::WrongDate,
            )
            &&& in_supported_range(t) ==> exists|s: DateTime|
                s.wf() && s.offset == base.offset && #[trigger] local_nanos(s) == t && r
                    == generated_from(base, m, s)
        },
{
    let builder = match fold_deltas(items) {
        Some(b) => b,
        None => {
            return Err(UtErrorKind::DeltaError);
        },
    };
    let delta = match builder.try_build() {
        Some(d) => d,
        None => {
            return Err(UtErrorKind::DeltaError);
        },
    };
    match delta.apply_datetime(base) {
        Some(dt) => Ok(dt),
        None => Err(UtErrorKind::WrongDate),
    }
}

/// Folding two items into a fresh builder in either order gives the same
/// counters, hence the same normalized delta.
pub proof fn lemma_fold_order_independent(a: DeltaItem, b: DeltaItem)
    ensures
        fold_items(seq![a, b]) == fold_items(seq![b, a]),
        normalize(fold_items(seq![a, b])) == normalize(fold_items(seq![b, a])),
{
    assert(seq![a, b].drop_last() =~= seq![a]);
    assert(seq![b, a].drop_last() =~= seq![b]);
    assert(seq![a].drop_last() =~= Seq::<DeltaItem>::empty());
    assert(seq![b].drop_last() =~= Seq::<DeltaItem>::empty());
    assert(fold_items(Seq::<DeltaItem>::empty()) == zero_model());
    assert(seq![a].last() == a && seq![b].last() == b);
    assert(seq![a, b].last() == b && seq![b, a].last() == a);
    assert(fold_items(seq![a]) == add_item(zero_model(), a));
    assert(fold_items(seq![b]) == add_item(zero_model(), b));
    assert(fold_items(seq![a, b]) == add_item(add_item(zero_model(), a), b));
    assert(fold_items(seq![b, a]) == add_item(add_item(zero_model(), b), a));
    crate::delta::lemma_fold_commutes(zero_model(), a, b);
}

/// Tells whether folding `item` into `builder` keeps every counter in 32 bits.
fn item_fits(builder: &TimeDeltaBuilder, item: DeltaItem) -> (r: bool)
    requires
        model_fits(builder@),
    ensures
        r == model_fits(add_item(builder@, item)),
{
    let d = builder.current();
    let v = item.value as i64;
    let lo = i32::MIN as i64;
    let hi = i32::MAX as i64;
    match item.unit {
        TimeUnit::Year => lo <= d.0 as i64 + v && d.0 as i64 + v <= hi,
        TimeUnit::Month => lo <= d.1 as i64 + v && d.1 as i64 + v <= hi,
        TimeUnit::Day => lo <= d.2 as i64 + v && d.2 as i64 + v <= hi,
        TimeUnit::Hour => lo <= d.3 as i64 + v && d.3 as i64 + v <= hi,
        TimeUnit::Minute => lo <= d.4 as i64 + v && d.4 as i64 + v <= hi,
        TimeUnit::Second => lo <= d.5 as i64 + v && d.5 as i64 + v <= hi,
        TimeUnit::MilliSecond => {
            let (c, rest) = carry_stage(v, 1000);
            proof {
                lemma_carry_law(v as int, 1000);
            }
            let s = d.5 as i64 + c;
            let us = d.6 as i64 + rest * 1000;
            lo <= s && s <= hi && lo <= us && us <= hi
        },
    }
}

} // verus!
