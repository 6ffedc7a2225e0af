use vstd::prelude::*;

use crate::calendar::{checked_add, in_supported_range, local_nanos, DateTime, NANOS_PER_SECOND, SECONDS_PER_DAY};
use crate::find::{
    find_by_name, lemma_resolve_in_range, reports, resolve, spelling_views, str_views, FindByName,
    FindError, PossibleNames, PossibleValues,
};
use crate::unit::{truncated, TimeUnit};

verus! {

/// Why a preset name was refused.
#[derive(Debug, PartialEq)]
pub enum PresetError {
    WrongName(FindError),
}

/// A named base date.
#[derive(Debug, Copy, Clone, PartialEq, Eq, Structural)]
pub enum Preset {
    Today,
    Tomorrow,
    Yesterday,
}

pub open spec fn all_presets() -> Seq<Preset> {
    seq![Preset::Today, Preset::Tomorrow, Preset::Yesterday]
}

pub open spec fn preset_names() -> Seq<Seq<char>> {
    seq![
        seq!['t', 'o', 'd', 'a', 'y'],
        seq!['t', 'o', 'm', 'o', 'r', 'r', 'o', 'w'],
        seq!['y', 'e', 's', 't', 'e', 'r', 'd', 'a', 'y'],
    ]
}

/// Every exact spelling with the index of its preset: the canonical names.
pub open spec fn preset_spellings() -> Seq<(Seq<char>, usize)> {
    seq![(preset_names()[0], 0usize), (preset_names()[1], 1usize), (preset_names()[2], 2usize)]
}

/// `Preset::find_by_name` as a function of the query.
pub open spec fn preset_by_name(q: Seq<char>) -> Result<Preset, Seq<usize>> {
    match resolve(preset_names(), preset_spellings(), q) {
        Ok(i) => Ok(all_presets()[i as int]),
        Err(found) => Err(found),
    }
}

/// Days from today that the preset names.
pub open spec fn preset_days(p: Preset) -> int {
    match p {
        Preset::Today => 0,
        Preset::Tomorrow => 1,
        Preset::Yesterday => -1,
    }
}

/// The wall-clock instant of midnight of the preset's day, seen from `now`.
pub open spec fn preset_nanos(p: Preset, now: DateTime) -> int {
    local_nanos(truncated(TimeUnit::Day, now)) + preset_days(p) * SECONDS_PER_DAY * NANOS_PER_SECOND
}

/// `d` is the start of the preset's day, seen from `now`.
pub open spec fn is_preset_date(p: Preset, now: DateTime, d: DateTime) -> bool {
    &&& d.wf()
    &&& d.offset == now.offset
    &&& local_nanos(d) == preset_nanos(p, now)
    &&& p is Today ==> d == truncated(TimeUnit::Day, now)
}

impl PossibleValues for Preset {
    open spec fn all_values() -> Seq<Preset> {
        all_presets()
    }

    fn possible_values() -> (r: Vec<Preset>) {
        let mut v: Vec<Preset> = Vec::new();
        v.push(Preset::Today);
        v.push(Preset::Tomorrow);
        v.push(Preset::Yesterday);
        assert(v@ =~= all_presets());
        v
    }
}

impl PossibleNames for Preset {
    open spec fn canonical_names() -> Seq<Seq<char>> {
        preset_names()
    }

    fn possible_names() -> (r: Vec<&'static str>) {
        let mut v: Vec<&'static str> = Vec::new();
        v.push("today");
        v.push("tomorrow");
        v.push("yesterday");
        proof {
            lemma_preset_literals();
        }
        assert(str_views(v@) =~= preset_names());
        v
    }
}

impl FindByName for Preset {
    type Error = PresetError;

    open spec fn by_name(q: Seq<char>) -> Result<Preset, Seq<usize>> {
        preset_by_name(q)
    }

    open spec fn is_report(e: PresetError, found: Seq<usize>) -> bool {
        match e {
            PresetError::WrongName(f) => reports(f, preset_names(), found),
        }
    }

    /// Resolves a name: an exact spelling (ignoring case) first, else the unique
    /// value whose canonical name starts with `name`.
    fn find_by_name(name: &str) -> (r: Result<Preset, PresetError>) {
        let names = Preset::possible_names();
        let spellings = Preset::spellings();
        match find_by_name(&names, &spellings, name) {
            Ok(i) => {
                let values = Preset::possible_values();
                proof {
                    lemma_resolve_in_range(preset_names(), preset_spellings(), name@);
                }
                assert(preset_by_name(name@) == Ok::<Preset, Seq<usize>>(values@[i as int]));
                Ok(values[i])
            },
            Err(e) => {
                assert(preset_by_name(name@) is Err);
                let r = PresetError::WrongName(e);
                assert(Self::is_report(r, preset_by_name(name@)->Err_0));
                Err(r)
            },
        }
    }
}

impl Preset {
    fn spellings() -> (r: Vec<(&'static str, usize)>)
        ensures
            spelling_views(r@) == preset_spellings(),
    {
        let mut v: Vec<(&'static str, usize)> = Vec::new();
        v.push(("today", 0));
        v.push(("tomorrow", 1));
        v.push(("yesterday", 2));
        proof {
            lemma_preset_literals();
        }
        assert(spelling_views(v@) =~= preset_spellings());
        v
    }

    /// Midnight of today, tomorrow or yesterday as seen from `now`; `None`
    /// when that day leaves the supported years.
    pub fn as_datetime(self, now: DateTime) -> (r: Option<DateTime>)
        requires
            now.wf(),
        ensures
            r is Some <==> in_supported_range(preset_nanos(self, now)),
            r matches Some(d) ==> is_preset_date(self, now, d),
    {
        let today = TimeUnit::Day.truncate(now);
        match self {
            Preset::Today => Some(today),
            Preset::Tomorrow => checked_add(&today, SECONDS_PER_DAY, 0),
            Preset::Yesterday => checked_add(&today, -SECONDS_PER_DAY, 0),
        }
    }
}

proof fn lemma_preset_literals()
    ensures
        "today"@ == preset_names()[0],
        "tomorrow"@ == preset_names()[1],
        "yesterday"@ == preset_names()[2],
{
    reveal_strlit("today");
    reveal_strlit("tomorrow");
    reveal_strlit("yesterday");
    assert("today"@ =~= preset_names()[0]);
    assert("tomorrow"@ =~= preset_names()[1]);
    assert("yesterday"@ =~= preset_names()[2]);
}

} // verus!
