use vstd::prelude::*;

use crate::datetime::{hms_of, Hms};
use crate::delta::{delta_item_of, DeltaItem, DeltaItemError};
use crate::error::UtErrorKind;
use crate::find::{FindByName, FindError};
use crate::offset::{offset_of, Offset};
use crate::precision::{precision_by_name, Precision};
use crate::preset::{preset_by_name, Preset};
use crate::unit::{unit_by_name, TimeUnit};

verus! {

/// Command-line reader of a delta item.
#[derive(Default)]
pub struct DeltaArgv {}

/// Command-line reader of a time of day.
#[derive(Default)]
pub struct HmsArgv {}

/// Command-line reader of an offset from UTC.
#[derive(Default)]
pub struct OffsetArgv {}

/// Command-line reader of a timestamp precision.
#[derive(Default)]
pub struct PrecisionArgv {}

/// Command-line reader of a preset base date.
#[derive(Default)]
pub struct PresetArgv {}

/// Command-line reader of a truncation unit.
#[derive(Default)]
pub struct TimeUnitArgv {}

impl DeltaArgv {
    pub fn parse_argv(&self, s: &str) -> (r: Result<DeltaItem, UtErrorKind>)
        ensures
            r is Ok <==> delta_item_of(s@) is Some,
            r matches Ok(d) ==> delta_item_of(s@) == Some(d),
            r is Err ==> r == Err::<DeltaItem, UtErrorKind>(UtErrorKind::DeltaError),
    {
        match DeltaItem::from_str(s) {
            Ok(d) => Ok(d),
            Err(_) => Err(UtErrorKind::DeltaError),
        }
    }

    /// `Ok` when the text is a delta item, else a message for the user.
    pub fn validate_argv(s: String) -> (r: Result<(), String>)
        ensures
            r is Ok <==> delta_item_of(s@) is Some,
    {
        match DeltaItem::from_str(s.as_str()) {
            Ok(_) => Ok(()),
            Err(DeltaItemError::WrongFormat(_)) => Err(
                String::from_str("<DELTA> must consist of NUMBER and UNIT. See examples on help."),
            ),
            Err(DeltaItemError::WrongValue(_)) => Err(
                String::from_str("<DELTA> value must be a number that fits in 32 bits."),
            ),
            Err(DeltaItemError::WrongUnit(crate::unit::TimeUnitError::WrongName(e))) => match e {
                FindError::NotFound => Err(String::from_str("No matching UNIT found.")),
                FindError::Ambiguous(_) => Err(String::from_str("UNIT is ambiguous.")),
            },
        }
    }
}

impl HmsArgv {
    pub fn parse_argv(&self, s: &str) -> (r: Result<Hms, UtErrorKind>)
        ensures
            r is Ok <==> hms_of(s@) is Some,
            r matches Ok(t) ==> hms_of(s@) == Some(t),
            r is Err ==> r == Err::<Hms, UtErrorKind>(UtErrorKind::WrongTime),
    {
        match Hms::from_str(s) {
            Ok(t) => Ok(t),
            Err(_) => Err(UtErrorKind::WrongTime),
        }
    }

    pub fn validate_argv(s: String) -> (r: Result<(), String>)
        ensures
            r is Ok <==> hms_of(s@) is Some,
    {
        match Hms::from_str(s.as_str()) {
            Ok(_) => Ok(()),
            Err(_) => Err(String::from_str("Wrong time. TIME must be in `HHmmss` or `H:m:s` format.")),
        }
    }
}

impl OffsetArgv {
    /// The offset in seconds east of UTC.
    pub fn parse_argv(&self, s: &str) -> (r: Result<i32, UtErrorKind>)
        ensures
            r is Ok <==> offset_of(s@) is Some,
            r matches Ok(secs) ==> -86_400 < secs < 86_400,
            r is Err ==> r == Err::<i32, UtErrorKind>(UtErrorKind::WrongTimeOffset),
    {
        match Offset::from_str(s) {
            Ok(o) => Ok(o.to_seconds()),
            Err(_) => Err(UtErrorKind::WrongTimeOffset),
        }
    }

    pub fn validate_argv(s: String) -> (r: Result<(), String>)
        ensures
            r is Ok <==> offset_of(s@) is Some,
    {
        match Offset::from_str(s.as_str()) {
            Ok(_) => Ok(()),
            Err(_) => Err(String::from_str("Wrong time offset. OFFSET must be in `+HHmm` or `+H:m` format.")),
        }
    }
}

impl PrecisionArgv {
    pub fn parse_argv(&self, s: &str) -> (r: Result<Precision, UtErrorKind>)
        ensures
            r is Ok <==> precision_by_name(s@) is Ok,
            r matches Ok(p) ==> precision_by_name(s@) == Ok::<Precision, Seq<usize>>(p),
            r is Err ==> r == Err::<Precision, UtErrorKind>(UtErrorKind::PrecisionError),
    {
        match Precision::find_by_name(s) {
            Ok(p) => Ok(p),
            Err(_) => Err(UtErrorKind::PrecisionError),
        }
    }

    pub fn validate_argv(s: String) -> (r: Result<(), String>)
        ensures
            r is Ok <==> precision_by_name(s@) is Ok,
    {
        match Precision::find_by_name(s.as_str()) {
            Ok(_) => Ok(()),
            Err(_) => Err(String::from_str("Wrong precision. possible names: [second, millisecond, microsecond, nanosecond]")),
        }
    }
}

impl PresetArgv {
    pub fn parse_argv(&self, s: &str) -> (r: Result<Preset, UtErrorKind>)
        ensures
            r is Ok <==> preset_by_name(s@) is Ok,
            r matches Ok(p) ==> preset_by_name(s@) == Ok::<Preset, Seq<usize>>(p),
            r is Err ==> r == Err::<Preset, UtErrorKind>(UtErrorKind::PresetError),
    {
        match Preset::find_by_name(s) {
            Ok(p) => Ok(p),
            Err(_) => Err(UtErrorKind::PresetError),
        }
    }

    pub fn validate_argv(s: String) -> (r: Result<(), String>)
        ensures
            r is Ok <==> preset_by_name(s@) is Ok,
    {
        match Preset::find_by_name(s.as_str()) {
            Ok(_) => Ok(()),
            Err(_) => Err(String::from_str("Wrong preset. possible names: [today, tomorrow, yesterday]")),
        }
    }
}

impl TimeUnitArgv {
    pub fn parse_argv(&self, s: &str) -> (r: Result<TimeUnit, UtErrorKind>)
        ensures
            r is Ok <==> unit_by_name(s@) is Ok,
            r matches Ok(u) ==> unit_by_name(s@) == Ok::<TimeUnit, Seq<usize>>(u),
            r is Err ==> r == Err::<TimeUnit, UtErrorKind>(UtErrorKind::TimeUnitError),
    {
        match TimeUnit::find_by_name(s) {
            Ok(u) => Ok(u),
            Err(_) => Err(UtErrorKind::TimeUnitError),
        }
    }

    pub fn validate_argv(s: String) -> (r: Result<(), String>)
        ensures
            r is Ok <==> unit_by_name(s@) is Ok,
    {
        match TimeUnit::find_by_name(s.as_str()) {
            Ok(_) => Ok(()),
            Err(_) => Err(String::from_str("Wrong unit. possible names: [year, month, day, hour, minute, second, millisecond]")),
        }
    }
}

} // verus!
