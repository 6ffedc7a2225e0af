use vstd::prelude::*;

use crate::calendar::{
    checked_add, floor_div_mod, in_supported_range, lemma_local_seconds_bounded, local_timestamp,
    utc_from_timestamp, utc_nanos, DateTime, NANOS_PER_SECOND, SECONDS_PER_DAY,
};
use crate::find::{
    find_by_name, lemma_resolve_in_range, reports, resolve, spelling_views, str_views, FindByName,
    FindError, PossibleNames, PossibleValues,
};

verus! {

/// Why a precision name was refused.
#[derive(Debug, PartialEq)]
pub enum PrecisionError {
    WrongName(FindError),
}

/// The unit of a printed or parsed timestamp.
#[derive(Debug, Copy, Clone, PartialEq, Eq, Structural)]
pub enum Precision {
    Second,
    MilliSecond,
    MicroSecond,
    NanoSecond,
}

pub open spec fn all_precisions() -> Seq<Precision> {
    seq![Precision::Second, Precision::MilliSecond, Precision::MicroSecond, Precision::NanoSecond]
}

/// The canonical names, in declaration order.
pub open spec fn precision_names() -> Seq<Seq<char>> {
    seq![
        seq!['s', 'e', 'c', 'o', 'n', 'd'],
        seq!['m', 'i', 'l', 'l', 'i', 's', 'e', 'c', 'o', 'n', 'd'],
        seq!['m', 'i', 'c', 'r', 'o', 's', 'e', 'c', 'o', 'n', 'd'],
        seq!['n', 'a', 'n', 'o', 's', 'e', 'c', 'o', 'n', 'd'],
    ]
}

/// Every exact spelling with the index of its precision: the canonical names and
/// the abbreviations "s", "ms", "us" and "ns".
pub open spec fn precision_spellings() -> Seq<(Seq<char>, usize)> {
    seq![
        (precision_names()[0], 0usize),
        (seq!['s'], 0usize),
        (precision_names()[1], 1usize),
        (seq!['m', 's'], 1usize),
        (precision_names()[2], 2usize),
        (seq!['u', 's'], 2usize),
        (precision_names()[3], 3usize),
        (seq!['n', 's'], 3usize),
    ]
}

/// `Precision::find_by_name` as a function of the query.
pub open spec fn precision_by_name(q: Seq<char>) -> Result<Precision, Seq<usize>> {
    match resolve(precision_names(), precision_spellings(), q) {
        Ok(i) => Ok(all_precisions()[i as int]),
        Err(found) => Err(found),
    }
}

/// Nanoseconds in one unit of the precision.
pub open spec fn unit_nanos(p: Precision) -> int {
    match p {
        Precision::Second => 1_000_000_000,
        Precision::MilliSecond => 1_000_000,
        Precision::MicroSecond => 1_000,
        Precision::NanoSecond => 1,
    }
}

/// The timestamp of an instant `t` (nanoseconds since the Unix epoch): whole
/// units, rounded toward the past.
pub open spec fn timestamp_of(p: Precision, t: int) -> int {
    t / unit_nanos(p)
}

impl PossibleValues for Precision {
    open spec fn all_values() -> Seq<Precision> {
        all_precisions()
    }

    fn possible_values() -> (r: Vec<Precision>) {
        let mut v: Vec<Precision> = Vec::new();
        v.push(Precision::Second);
        v.push(Precision::MilliSecond);
        v.push(Precision::MicroSecond);
        v.push(Precision::NanoSecond);
        assert(v@ =~= all_precisions());
        v
    }
}

impl PossibleNames for Precision {
    open spec fn canonical_names() -> Seq<Seq<char>> {
        precision_names()
    }

    fn possible_names() -> (r: Vec<&'static str>) {
        let mut v: Vec<&'static str> = Vec::new();
        v.push("second");
        v.push("millisecond");
        v.push("microsecond");
        v.push("nanosecond");
        proof {
            lemma_precision_literals();
        }
        assert(str_views(v@) =~= precision_names());
        v
    }
}

impl FindByName for Precision {
    type Error = PrecisionError;

    open spec fn by_name(q: Seq<char>) -> Result<Precision, Seq<usize>> {
        precision_by_name(q)
    }

    open spec fn is_report(e: PrecisionError, found: Seq<usize>) -> bool {
        match e {
            PrecisionError::WrongName(f) => reports(f, precision_names(), found),
        }
    }

    /// Resolves a name: an exact spelling (ignoring case) first, else the unique
    /// value whose canonical name starts with `name`.
    fn find_by_name(name: &str) -> (r: Result<Precision, PrecisionError>) {
        let names = Precision::possible_names();
        let spellings = Precision::spellings();
        match find_by_name(&names, &spellings, name) {
            Ok(i) => {
                let values = Precision::possible_values();
                proof {
                    lemma_precision_index_in_range(name@);
                }
                assert(precision_by_name(name@) == Ok::<Precision, Seq<usize>>(values@[i as int]));
                Ok(values[i])
            },
            Err(e) => {
                assert(precision_by_name(name@) is Err);
                let r = PrecisionError::WrongName(e);
                assert(Self::is_report(r, precision_by_name(name@)->Err_0));
                Err(r)
            },
        }
    }
}

impl Precision {
    fn spellings() -> (r: Vec<(&'static str, usize)>)
        ensures
            spelling_views(r@) == precision_spellings(),
    {
        let mut v: Vec<(&'static str, usize)> = Vec::new();
        v.push(("second", 0));
        v.push(("s", 0));
        v.push(("millisecond", 1));
        v.push(("ms", 1));
        v.push(("microsecond", 2));
        v.push(("us", 2));
        v.push(("nanosecond", 3));
        v.push(("ns", 3));
        proof {
            lemma_precision_literals();
        }
        assert(spelling_views(v@) =~= precision_spellings());
        v
    }

    /// The strftime-style format that shows a date and time to this precision.
    pub fn preferred_format(self) -> (r: &'static str)
        ensures
            self is Second ==> r@ == "%Y-%m-%d %H:%M:%S (%Z)"@,
            self is MilliSecond ==> r@ == "%Y-%m-%d %H:%M:%S%.3f (%Z)"@,
            self is MicroSecond ==> r@ == "%Y-%m-%d %H:%M:%S%.6f (%Z)"@,
            self is NanoSecond ==> r@ == "%Y-%m-%d %H:%M:%S%.9f (%Z)"@,
    {
        match self {
            Precision::Second => "%Y-%m-%d %H:%M:%S (%Z)",
            Precision::MilliSecond => "%Y-%m-%d %H:%M:%S%.3f (%Z)",
            Precision::MicroSecond => "%Y-%m-%d %H:%M:%S%.6f (%Z)",
            Precision::NanoSecond => "%Y-%m-%d %H:%M:%S%.9f (%Z)",
        }
    }

    /// The timestamp of `dt` in this precision; `None` when it does not fit in
    /// 64 bits.
    pub fn to_timestamp(self, dt: DateTime) -> (r: Option<i64>)
        requires
            dt.wf(),
        ensures
            r is Some <==> i64::MIN <= timestamp_of(self, utc_nanos(dt)) <= i64::MAX,
            r matches Some(v) ==> v == timestamp_of(self, utc_nanos(dt)),
    {
        let local = local_timestamp(&dt);
        proof {
            lemma_local_seconds_bounded(dt, local as int);
        }
        let secs: i64 = local - dt.offset as i64;
        let ns = dt.nanosecond as i64;
        assert(utc_nanos(dt) == secs * NANOS_PER_SECOND + ns);
        match self {
            Precision::Second => {
                proof {
                    vstd::arithmetic::div_mod::lemma_fundamental_div_mod_converse(
                        utc_nanos(dt),
                        1_000_000_000,
                        secs as int,
                        ns as int,
                    );
                }
                Some(secs)
            },
            Precision::MilliSecond => {
                let v = secs * 1000 + ns / 1_000_000;
                proof {
                    lemma_split_units(secs as int, ns as int, 1000, 1_000_000);
                }
                Some(v)
            },
            Precision::MicroSecond => {
                let v = secs * 1_000_000 + ns / 1000;
                proof {
                    lemma_split_units(secs as int, ns as int, 1_000_000, 1000);
                }
                Some(v)
            },
            Precision::NanoSecond => {
                let v: i128 = secs as i128 * 1_000_000_000 + ns as i128;
                if v < i64::MIN as i128 || v > i64::MAX as i128 {
                    None
                } else {
                    Some(v as i64)
                }
            },
        }
    }

    /// The date and time, at the given offset (seconds east of UTC), of a
    /// timestamp in this precision; `None` outside the supported years.
    pub fn parse_timestamp(self, offset: i32, timestamp: i64) -> (r: Option<DateTime>)
        requires
            -SECONDS_PER_DAY < offset < SECONDS_PER_DAY,
        ensures
            r is Some <==> in_supported_range(timestamp * unit_nanos(self)) && in_supported_range(
                timestamp * unit_nanos(self) + offset * NANOS_PER_SECOND,
            ),
            r matches Some(s) ==> s.wf() && s.offset == offset && utc_nanos(s) == timestamp
                * unit_nanos(self),
    {
        let (per_second, step): (i64, i64) = match self {
            Precision::Second => (1, 1_000_000_000),
            Precision::MilliSecond => (1000, 1_000_000),
            Precision::MicroSecond => (1_000_000, 1000),
            Precision::NanoSecond => (1_000_000_000, 1),
        };
        assert(step == unit_nanos(self) && per_second * step == 1_000_000_000);
        let (secs, rest) = floor_div_mod(timestamp, per_second);
        proof {
            vstd::arithmetic::div_mod::lemma_fundamental_div_mod(timestamp as int, per_second as int);
            lemma_timestamp_split(timestamp as int, per_second as int, step as int, secs as int, rest as int);
        }
        let nanos: i64 = rest * step;
        let utc = match utc_from_timestamp(secs, nanos as u32) {
            Some(u) => u,
            None => {
                return None;
            },
        };
        match checked_add(&utc, offset as i64, 0) {
            Some(local) => Some(DateTime { offset, ..local }),
            None => None,
        }
    }
}

proof fn lemma_timestamp_split(ts: int, ps: int, u: int, secs: int, rest: int)
    requires
        ps > 0,
        u > 0,
        ps * u == 1_000_000_000,
        ts == ps * secs + rest,
        0 <= rest < ps,
    ensures
        ts * u == secs * 1_000_000_000 + rest * u,
        0 <= rest * u < 1_000_000_000,
{
    assert(ts * u == secs * 1_000_000_000 + rest * u) by (nonlinear_arith)
        requires
            ps * u == 1_000_000_000,
            ts == ps * secs + rest,
    ;
    assert(0 <= rest * u < 1_000_000_000) by (nonlinear_arith)
        requires
            ps * u == 1_000_000_000,
            0 <= rest < ps,
            u > 0,
    ;
}

proof fn lemma_split_units(secs: int, ns: int, k: int, d: int)
    requires
        k * d == 1_000_000_000,
        0 <= ns < 1_000_000_000,
        d > 0,
    ensures
        (secs * 1_000_000_000 + ns) / d == secs * k + ns / d,
{
    vstd::arithmetic::div_mod::lemma_fundamental_div_mod(ns, d);
    vstd::arithmetic::div_mod::lemma_mod_bound(ns, d);
    assert(secs * 1_000_000_000 + ns == (secs * k + ns / d) * d + ns % d) by (nonlinear_arith)
        requires
            k * d == 1_000_000_000,
            ns == d * (ns / d) + ns % d,
    ;
    vstd::arithmetic::div_mod::lemma_fundamental_div_mod_converse(
        secs * 1_000_000_000 + ns,
        d,
        secs * k + ns / d,
        ns % d,
    );
}

proof fn lemma_precision_literals()
    ensures
        "second"@ == precision_names()[0],
        "millisecond"@ == precision_names()[1],
        "microsecond"@ == precision_names()[2],
        "nanosecond"@ == precision_names()[3],
        "s"@ == seq!['s'],
        "ms"@ == seq!['m', 's'],
        "us"@ == seq!['u', 's'],
        "ns"@ == seq!['n', 's'],
{
    reveal_strlit("second");
    reveal_strlit("millisecond");
    reveal_strlit("microsecond");
    reveal_strlit("nanosecond");
    reveal_strlit("s");
    reveal_strlit("ms");
    reveal_strlit("us");
    reveal_strlit("ns");
    assert("second"@ =~= precision_names()[0]);
    assert("millisecond"@ =~= precision_names()[1]);
    assert("microsecond"@ =~= precision_names()[2]);
    assert("nanosecond"@ =~= precision_names()[3]);
    assert("s"@ =~= seq!['s']);
    assert("ms"@ =~= seq!['m', 's']);
    assert("us"@ =~= seq!['u', 's']);
    assert("ns"@ =~= seq!['n', 's']);
}

proof fn lemma_precision_index_in_range(q: Seq<char>)
    ensures
        resolve(precision_names(), precision_spellings(), q) matches Ok(i) ==> i < 4,
{
    lemma_resolve_in_range(precision_names(), precision_spellings(), q);
}

} // verus!
