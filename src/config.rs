use vstd::prelude::*;

verus! {

/// Settings taken from the environment; each may be absent.
#[derive(Debug, Default)]
pub struct Config {
    pub offset: Option<String>,
    pub precision: Option<String>,
    pub datetime_format: Option<String>,
}

/// The text of an optional setting.
fn setting(value: &Option<String>) -> (r: Option<&str>)
    ensures
        value is None ==> r is None,
        value matches Some(s) ==> r matches Some(t) && t@ == s@,
{
    match value {
        Some(s) => Some(s.as_str()),
        None => None,
    }
}

impl Config {
    pub fn offset(&self) -> (r: Option<&str>)
        ensures
            self.offset is None ==> r is None,
            self.offset matches Some(s) ==> r matches Some(t) && t@ == s@,
    {
        setting(&self.offset)
    }

    pub fn precision(&self) -> (r: Option<&str>)
        ensures
            self.precision is None ==> r is None,
            self.precision matches Some(s) ==> r matches Some(t) && t@ == s@,
    {
        setting(&self.precision)
    }

    pub fn datetime_format(&self) -> (r: Option<&str>)
        ensures
            self.datetime_format is None ==> r is None,
            self.datetime_format matches Some(s) ==> r matches Some(t) && t@ == s@,
    {
        setting(&self.datetime_format)
    }
}

} // verus!
