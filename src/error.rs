use vstd::prelude::*;

verus! {

/// The kinds of failure that the command line reports.
#[derive(Debug, Copy, Clone, PartialEq, Eq, Structural)]
pub enum UtErrorKind {
    TimeUnitError,
    PresetError,
    DeltaError,
    PrecisionError,
    WrongDate,
    WrongTime,
    WrongTimeOffset,
    AmbiguousDate,
}

} // verus!
