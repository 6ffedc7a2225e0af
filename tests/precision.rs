use ut::calendar::DateTime;
use ut::find::{FindByName, FindError};
use ut::precision::{Precision, PrecisionError};

fn utc(y: i32, m: u32, d: u32, h: u32, mi: u32, s: u32, nanos: u32) -> DateTime {
    DateTime {
        year: y,
        month: m,
        day: d,
        hour: h,
        minute: mi,
        second: s,
        nanosecond: nanos,
        offset: 0,
    }
}

#[test]
fn precision_find_by_name_second() {
    assert_eq!(Precision::find_by_name("second"), Ok(Precision::Second));
    assert_eq!(Precision::find_by_name("s"), Ok(Precision::Second));
}

#[test]
fn find_by_name_millisecond() {
    assert_eq!(
        Precision::find_by_name("millisecond"),
        Ok(Precision::MilliSecond)
    );
    assert_eq!(
        Precision::find_by_name("millis"),
        Ok(Precision::MilliSecond)
    );
    assert_eq!(Precision::find_by_name("ms"), Ok(Precision::MilliSecond));
}

#[test]
fn find_by_name_microsecond() {
    assert_eq!(
        Precision::find_by_name("microsecond"),
        Ok(Precision::MicroSecond)
    );
    assert_eq!(
        Precision::find_by_name("micros"),
        Ok(Precision::MicroSecond)
    );
    assert_eq!(Precision::find_by_name("us"), Ok(Precision::MicroSecond));
}

#[test]
fn find_by_name_nanosecond() {
    assert_eq!(
        Precision::find_by_name("nanosecond"),
        Ok(Precision::NanoSecond)
    );
    assert_eq!(Precision::find_by_name("n"), Ok(Precision::NanoSecond));
    assert_eq!(Precision::find_by_name("ns"), Ok(Precision::NanoSecond));
}

#[test]
fn precision_find_by_name_not_supported() {
    assert_eq!(
        Precision::find_by_name("year"),
        Err(PrecisionError::WrongName(FindError::NotFound))
    );
    assert_eq!(
        Precision::find_by_name("min"),
        Err(PrecisionError::WrongName(FindError::NotFound))
    );
}

#[test]
fn precision_find_by_name_ambiguous() {
    assert_eq!(
        Precision::find_by_name("m"),
        Err(PrecisionError::WrongName(FindError::Ambiguous(vec![
            "millisecond".to_string(),
            "microsecond".to_string()
        ])))
    );
    assert_eq!(Precision::find_by_name_opt(Some("NS")), Ok(Some(Precision::NanoSecond)));
    assert_eq!(Precision::find_by_name_opt(None), Ok(None));
}

#[test]
fn parse_timestamp_second() {
    assert_eq!(
        Precision::Second.parse_timestamp(0, 0),
        Some(utc(1970, 1, 1, 0, 0, 0, 0))
    );

    assert_eq!(
        Precision::Second.parse_timestamp(0, 1560762129123),
        Some(utc(51428, 8, 1, 11, 52, 3, 0))
    );
}

#[test]
fn parse_timestamp_millisecond() {
    assert_eq!(
        Precision::MilliSecond.parse_timestamp(0, 0),
        Some(utc(1970, 1, 1, 0, 0, 0, 0))
    );

    assert_eq!(
        Precision::MilliSecond.parse_timestamp(0, 1560762129123),
        Some(utc(2019, 6, 17, 9, 2, 9, 123_000_000))
    );
}

#[test]
fn parse_timestamp_microsecond() {
    assert_eq!(
        Precision::MicroSecond.parse_timestamp(0, 0),
        Some(utc(1970, 1, 1, 0, 0, 0, 0))
    );

    assert_eq!(
        Precision::MicroSecond.parse_timestamp(0, 1560762129123456),
        Some(utc(2019, 6, 17, 9, 2, 9, 123_456_000))
    );
}

#[test]
fn parse_timestamp_nanosecond() {
    assert_eq!(
        Precision::NanoSecond.parse_timestamp(0, 0),
        Some(utc(1970, 1, 1, 0, 0, 0, 0))
    );

    assert_eq!(
        Precision::NanoSecond.parse_timestamp(0, 1560762129123456789),
        Some(utc(2019, 6, 17, 9, 2, 9, 123_456_789))
    );
}

#[test]
fn parse_timestamp_negative_and_offset() {
    assert_eq!(
        Precision::MilliSecond.parse_timestamp(0, -1),
        Some(utc(1969, 12, 31, 23, 59, 59, 999_000_000))
    );
    let mut tokyo = utc(1970, 1, 1, 9, 0, 0, 0);
    tokyo.offset = 9 * 3600;
    assert_eq!(Precision::Second.parse_timestamp(9 * 3600, 0), Some(tokyo));
    assert_eq!(Precision::Second.parse_timestamp(0, i64::MAX), None);
    assert!(Precision::NanoSecond.parse_timestamp(0, i64::MIN).is_some());
}

#[test]
fn to_timestamp_in_each_precision() {
    let dt = utc(2019, 6, 17, 9, 2, 9, 123_456_789);
    assert_eq!(Precision::Second.to_timestamp(dt), Some(1560762129));
    assert_eq!(Precision::MilliSecond.to_timestamp(dt), Some(1560762129123));
    assert_eq!(Precision::MicroSecond.to_timestamp(dt), Some(1560762129123456));
    assert_eq!(Precision::NanoSecond.to_timestamp(dt), Some(1560762129123456789));
    let before = utc(1969, 12, 31, 23, 59, 59, 500_000_000);
    assert_eq!(Precision::Second.to_timestamp(before), Some(-1));
    assert_eq!(Precision::MilliSecond.to_timestamp(before), Some(-500));
    let mut tokyo = utc(1970, 1, 1, 9, 0, 0, 0);
    tokyo.offset = 9 * 3600;
    assert_eq!(Precision::Second.to_timestamp(tokyo), Some(0));
    assert_eq!(Precision::NanoSecond.to_timestamp(utc(3000, 1, 1, 0, 0, 0, 0)), None);
}

#[test]
fn preferred_format_per_precision() {
    assert_eq!(Precision::Second.preferred_format(), "%Y-%m-%d %H:%M:%S (%Z)");
    assert_eq!(Precision::MilliSecond.preferred_format(), "%Y-%m-%d %H:%M:%S%.3f (%Z)");
    assert_eq!(Precision::MicroSecond.preferred_format(), "%Y-%m-%d %H:%M:%S%.6f (%Z)");
    assert_eq!(Precision::NanoSecond.preferred_format(), "%Y-%m-%d %H:%M:%S%.9f (%Z)");
}
