use vstd::prelude::*;

use crate::calendar::DateTime;
use crate::find::{
    find_by_name, lemma_resolve_in_range, reports, resolve, spelling_views, str_views, FindByName,
    FindError, PossibleNames, PossibleValues,
};

verus! {

/// Why a unit name was refused.
#[derive(Debug, PartialEq)]
pub enum TimeUnitError {
    WrongName(FindError),
}

/// A calendar unit: the granularity of a delta item or of a truncation.
#[derive(Debug, Copy, Clone, PartialEq, Eq, Structural)]
pub enum TimeUnit {
    Year,
    Month,
    Day,
    Hour,
    Minute,
    Second,
    MilliSecond,
}

/// The units in declaration order.
pub open spec fn all_units() -> Seq<TimeUnit> {
    seq![
        TimeUnit::Year,
        TimeUnit::Month,
        TimeUnit::Day,
        TimeUnit::Hour,
        TimeUnit::Minute,
        TimeUnit::Second,
        TimeUnit::MilliSecond,
    ]
}

/// The canonical names, in declaration order.
pub open spec fn unit_names() -> Seq<Seq<char>> {
    seq![
        seq!['y', 'e', 'a', 'r'],
        seq!['m', 'o', 'n', 't', 'h'],
        seq!['d', 'a', 'y'],
        seq!['h', 'o', 'u', 'r'],
        seq!['m', 'i', 'n', 'u', 't', 'e'],
        seq!['s', 'e', 'c', 'o', 'n', 'd'],
        seq!['m', 'i', 'l', 'l', 'i', 's', 'e', 'c', 'o', 'n', 'd'],
    ]
}

/// Every exact spelling with the index of its unit: the canonical names and the
/// alias "ms".
pub open spec fn unit_spellings() -> Seq<(Seq<char>, usize)> {
    Seq::new(7, |i: int| (unit_names()[i], i as usize)).push((seq!['m', 's'], 6usize))
}

/// `TimeUnit::find_by_name` as a function of the query.
pub open spec fn unit_by_name(q: Seq<char>) -> Result<TimeUnit, Seq<usize>> {
    match resolve(unit_names(), unit_spellings(), q) {
        Ok(i) => Ok(all_units()[i as int]),
        Err(found) => Err(found),
    }
}

/// `dt` with every field finer than `unit` set to its least value.
pub open spec fn truncated(unit: TimeUnit, dt: DateTime) -> DateTime {
    match unit {
        TimeUnit::Year => DateTime { month: 1, day: 1, hour: 0, minute: 0, second: 0, nanosecond: 0, ..dt },
        TimeUnit::Month => DateTime { day: 1, hour: 0, minute: 0, second: 0, nanosecond: 0, ..dt },
        TimeUnit::Day => DateTime { hour: 0, minute: 0, second: 0, nanosecond: 0, ..dt },
        TimeUnit::Hour => DateTime { minute: 0, second: 0, nanosecond: 0, ..dt },
        TimeUnit::Minute => DateTime { second: 0, nanosecond: 0, ..dt },
        TimeUnit::Second => DateTime { nanosecond: 0, ..dt },
        TimeUnit::MilliSecond => DateTime {
            nanosecond: (dt.nanosecond / 1_000_000 * 1_000_000) as u32,
            ..dt
        },
    }
}

impl PossibleValues for TimeUnit {
    open spec fn all_values() -> Seq<TimeUnit> {
        all_units()
    }

    fn possible_values() -> (r: Vec<TimeUnit>) {
        let mut v: Vec<TimeUnit> = Vec::new();
        v.push(TimeUnit::Year);
        v.push(TimeUnit::Month);
        v.push(TimeUnit::Day);
        v.push(TimeUnit::Hour);
        v.push(TimeUnit::Minute);
        v.push(TimeUnit::Second);
        v.push(TimeUnit::MilliSecond);
        assert(v@ =~= all_units());
        v
    }
}

impl PossibleNames for TimeUnit {
    open spec fn canonical_names() -> Seq<Seq<char>> {
        unit_names()
    }

    fn possible_names() -> (r: Vec<&'static str>) {
        let mut v: Vec<&'static str> = Vec::new();
        v.push("year");
        v.push("month");
        v.push("day");
        v.push("hour");
        v.push("minute");
        v.push("second");
        v.push("millisecond");
        proof {
            lemma_name_literals();
        }
        assert(str_views(v@) =~= unit_names());
        v
    }
}

impl FindByName for TimeUnit {
    type Error = TimeUnitError;

    open spec fn by_name(q: Seq<char>) -> Result<TimeUnit, Seq<usize>> {
        unit_by_name(q)
    }

    open spec fn is_report(e: TimeUnitError, found: Seq<usize>) -> bool {
        match e {
            TimeUnitError::WrongName(f) => reports(f, unit_names(), found),
        }
    }

    /// Resolves a unit name: an exact spelling (ignoring case) first, else the
    /// unique unit whose canonical name starts with `name`.
    fn find_by_name(name: &str) -> (r: Result<TimeUnit, TimeUnitError>) {
        let names = TimeUnit::possible_names();
        let spellings = TimeUnit::spellings();
        assert(str_views(names@) == unit_names());
        match find_by_name(&names, &spellings, name) {
            Ok(i) => {
                let units = TimeUnit::possible_values();
                proof {
                    lemma_resolved_index_in_range(name@);
                }
                assert(unit_by_name(name@) == Ok::<TimeUnit, Seq<usize>>(units@[i as int]));
                Ok(units[i])
            },
            Err(e) => {
                assert(unit_by_name(name@) is Err);
                assert(reports(e, unit_names(), unit_by_name(name@)->Err_0));
                let r = TimeUnitError::WrongName(e);
                assert(Self::is_report(r, unit_by_name(name@)->Err_0));
                Err(r)
            },
        }
    }
}

impl TimeUnit {
    fn spellings() -> (r: Vec<(&'static str, usize)>)
        ensures
            spelling_views(r@) == unit_spellings(),
    {
        let mut v: Vec<(&'static str, usize)> = Vec::new();
        v.push(("year", 0));
        v.push(("month", 1));
        v.push(("day", 2));
        v.push(("hour", 3));
        v.push(("minute", 4));
        v.push(("second", 5));
        v.push(("millisecond", 6));
        v.push(("ms", 6));
        proof {
            lemma_name_literals();
            reveal_strlit("ms");
            assert("ms"@ =~= seq!['m', 's']);
        }
        assert(spelling_views(v@) =~= unit_spellings());
        v
    }

    /// Sets every field of `dt` finer than this unit to its least value.
    pub fn truncate(self, dt: DateTime) -> (r: DateTime)
        requires
            dt.wf(),
        ensures
            r == truncated(self, dt),
            r.wf(),
    {
        match self {
            TimeUnit::Year => DateTime { month: 1, day: 1, hour: 0, minute: 0, second: 0, nanosecond: 0, ..dt },
            TimeUnit::Month => DateTime { day: 1, hour: 0, minute: 0, second: 0, nanosecond: 0, ..dt },
            TimeUnit::Day => DateTime { hour: 0, minute: 0, second: 0, nanosecond: 0, ..dt },
            TimeUnit::Hour => DateTime { minute: 0, second: 0, nanosecond: 0, ..dt },
            TimeUnit::Minute => DateTime { second: 0, nanosecond: 0, ..dt },
            TimeUnit::Second => DateTime { nanosecond: 0, ..dt },
            TimeUnit::MilliSecond => DateTime { nanosecond: dt.nanosecond / 1_000_000 * 1_000_000, ..dt },
        }
    }
}

proof fn lemma_name_literals()
    ensures
        "year"@ == unit_names()[0],
        "month"@ == unit_names()[1],
        "day"@ == unit_names()[2],
        "hour"@ == unit_names()[3],
        "minute"@ == unit_names()[4],
        "second"@ == unit_names()[5],
        "millisecond"@ == unit_names()[6],
{
    reveal_strlit("year");
    reveal_strlit("month");
    reveal_strlit("day");
    reveal_strlit("hour");
    reveal_strlit("minute");
    reveal_strlit("second");
    reveal_strlit("millisecond");
    assert("year"@ =~= unit_names()[0]);
    assert("month"@ =~= unit_names()[1]);
    assert("day"@ =~= unit_names()[2]);
    assert("hour"@ =~= unit_names()[3]);
    assert("minute"@ =~= unit_names()[4]);
    assert("second"@ =~= unit_names()[5]);
    assert("millisecond"@ =~= unit_names()[6]);
}

proof fn lemma_resolved_index_in_range(q: Seq<char>)
    ensures
        resolve(unit_names(), unit_spellings(), q) matches Ok(i) ==> i < 7,
{
    assert forall|k: int| 0 <= k < unit_spellings().len() implies #[trigger] unit_spellings()[k].1
        < unit_names().len() by {
        if k < 7 {
            assert(unit_spellings()[k] == (unit_names()[k], k as usize));
        }
    }
    lemma_resolve_in_range(unit_names(), unit_spellings(), q);
}

} // verus!
