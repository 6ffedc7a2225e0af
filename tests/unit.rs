use ut::calendar::DateTime;
use ut::find::{FindByName, FindError};
use ut::unit::{TimeUnit, TimeUnitError};

fn at(y: i32, m: u32, d: u32, h: u32, mi: u32, s: u32, nanos: u32) -> DateTime {
    DateTime {
        year: y,
        month: m,
        day: d,
        hour: h,
        minute: mi,
        second: s,
        nanosecond: nanos,
        offset: 0,
    }
}

fn base_date() -> DateTime {
    at(2019, 6, 17, 11, 22, 33, 444_000_000)
}

fn utc_ymd_and_hms(y: i32, m: u32, d: u32, h: u32, mi: u32, s: u32) -> DateTime {
    at(y, m, d, h, mi, s, 0)
}

fn utc_datetime_with_millis(dt: DateTime, millis: u32) -> DateTime {
    DateTime {
        nanosecond: millis * 1_000_000,
        ..dt
    }
}

#[test]
fn find_by_name_year() {
    assert_eq!(TimeUnit::find_by_name("year"), Ok(TimeUnit::Year));
    assert_eq!(TimeUnit::find_by_name("YEAR"), Ok(TimeUnit::Year));
    assert_eq!(TimeUnit::find_by_name("y"), Ok(TimeUnit::Year));
}

#[test]
fn find_by_name_month() {
    assert_eq!(TimeUnit::find_by_name("month"), Ok(TimeUnit::Month));
    assert_eq!(TimeUnit::find_by_name("mo"), Ok(TimeUnit::Month));

    assert_eq!(
        TimeUnit::find_by_name("m"),
        Err(TimeUnitError::WrongName(FindError::Ambiguous(vec![
            "month".to_string(),
            "minute".to_string(),
            "millisecond".to_string()
        ])))
    );
}

#[test]
fn find_by_name_day() {
    assert_eq!(TimeUnit::find_by_name("day"), Ok(TimeUnit::Day));
    assert_eq!(TimeUnit::find_by_name("d"), Ok(TimeUnit::Day));
}

#[test]
fn find_by_name_hour() {
    assert_eq!(TimeUnit::find_by_name("hour"), Ok(TimeUnit::Hour));
    assert_eq!(TimeUnit::find_by_name("h"), Ok(TimeUnit::Hour));
}

#[test]
fn find_by_name_minute() {
    assert_eq!(TimeUnit::find_by_name("minute"), Ok(TimeUnit::Minute));
    assert_eq!(TimeUnit::find_by_name("min"), Ok(TimeUnit::Minute));

    assert_eq!(
        TimeUnit::find_by_name("mi"),
        Err(TimeUnitError::WrongName(FindError::Ambiguous(vec![
            "minute".to_string(),
            "millisecond".to_string()
        ])))
    );
}

#[test]
fn unit_find_by_name_second() {
    assert_eq!(TimeUnit::find_by_name("second"), Ok(TimeUnit::Second));
    assert_eq!(TimeUnit::find_by_name("s"), Ok(TimeUnit::Second));
}

#[test]
fn find_by_name_milli_second() {
    assert_eq!(
        TimeUnit::find_by_name("millisecond"),
        Ok(TimeUnit::MilliSecond)
    );
    assert_eq!(TimeUnit::find_by_name("mil"), Ok(TimeUnit::MilliSecond));
    assert_eq!(TimeUnit::find_by_name("ms"), Ok(TimeUnit::MilliSecond));
}

#[test]
fn unit_find_by_name_not_supported() {
    assert_eq!(
        TimeUnit::find_by_name("b"),
        Err(TimeUnitError::WrongName(FindError::NotFound))
    );
}

#[test]
fn find_by_name_exact_ignores_case() {
    assert_eq!(TimeUnit::find_by_name("MS"), Ok(TimeUnit::MilliSecond));
    assert_eq!(TimeUnit::find_by_name("Mon"), Ok(TimeUnit::Month));
    assert_eq!(TimeUnit::find_by_name("years"), Err(TimeUnitError::WrongName(FindError::NotFound)));
    assert_eq!(TimeUnit::find_by_name_opt(None), Ok(None));
    assert_eq!(TimeUnit::find_by_name_opt(Some("h")), Ok(Some(TimeUnit::Hour)));
    assert!(TimeUnit::find_by_name_opt(Some("x")).is_err());
}

#[test]
fn truncate_year() {
    assert_eq!(
        TimeUnit::Year.truncate(base_date()),
        utc_ymd_and_hms(2019, 1, 1, 0, 0, 0)
    );

    assert_eq!(
        TimeUnit::Year.truncate(utc_ymd_and_hms(2019, 1, 1, 0, 0, 0)),
        utc_ymd_and_hms(2019, 1, 1, 0, 0, 0)
    );
}

#[test]
fn truncate_month() {
    assert_eq!(
        TimeUnit::Month.truncate(base_date()),
        utc_ymd_and_hms(2019, 6, 1, 0, 0, 0)
    );

    assert_eq!(
        TimeUnit::Month.truncate(utc_ymd_and_hms(2019, 6, 1, 0, 0, 0)),
        utc_ymd_and_hms(2019, 6, 1, 0, 0, 0)
    );
}

#[test]
fn truncate_day() {
    assert_eq!(
        TimeUnit::Day.truncate(base_date()),
        utc_ymd_and_hms(2019, 6, 17, 0, 0, 0)
    );

    assert_eq!(
        TimeUnit::Day.truncate(utc_ymd_and_hms(2019, 6, 17, 0, 0, 0)),
        utc_ymd_and_hms(2019, 6, 17, 0, 0, 0)
    );
}

#[test]
fn truncate_hour() {
    assert_eq!(
        TimeUnit::Hour.truncate(base_date()),
        utc_ymd_and_hms(2019, 6, 17, 11, 0, 0)
    );

    assert_eq!(
        TimeUnit::Hour.truncate(utc_ymd_and_hms(2019, 6, 17, 11, 0, 0)),
        utc_ymd_and_hms(2019, 6, 17, 11, 0, 0)
    );
}

#[test]
fn truncate_minute() {
    assert_eq!(
        TimeUnit::Minute.truncate(base_date()),
        utc_ymd_and_hms(2019, 6, 17, 11, 22, 0)
    );

    assert_eq!(
        TimeUnit::Minute.truncate(utc_ymd_and_hms(2019, 6, 17, 11, 22, 0)),
        utc_ymd_and_hms(2019, 6, 17, 11, 22, 0)
    );
}

#[test]
fn truncate_second() {
    assert_eq!(
        TimeUnit::Second.truncate(base_date()),
        utc_ymd_and_hms(2019, 6, 17, 11, 22, 33)
    );

    assert_eq!(
        TimeUnit::Second.truncate(utc_ymd_and_hms(2019, 6, 17, 11, 22, 33)),
        utc_ymd_and_hms(2019, 6, 17, 11, 22, 33)
    );
}

#[test]
fn truncate_millisecond() {
    assert_eq!(
        TimeUnit::MilliSecond.truncate(base_date()),
        utc_datetime_with_millis(utc_ymd_and_hms(2019, 6, 17, 11, 22, 33), 444)
    );

    assert_eq!(
        TimeUnit::MilliSecond.truncate(utc_datetime_with_millis(
            utc_ymd_and_hms(2019, 6, 17, 11, 22, 33),
            444
        )),
        utc_datetime_with_millis(utc_ymd_and_hms(2019, 6, 17, 11, 22, 33), 444)
    );
}

#[test]
fn truncate_millisecond_drops_finer_digits() {
    assert_eq!(
        TimeUnit::MilliSecond.truncate(at(2019, 6, 17, 11, 22, 33, 444_999_999)),
        at(2019, 6, 17, 11, 22, 33, 444_000_000)
    );
    assert_eq!(
        TimeUnit::Month.truncate(at(2019, 6, 17, 11, 22, 33, 444_000_000)),
        at(2019, 6, 1, 0, 0, 0, 0)
    );
}
