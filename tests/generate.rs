use ut::calendar::DateTime;
use ut::config::Config;
use ut::datetime::{Hms, Ymd};
use ut::delta::DeltaItem;
use ut::error::UtErrorKind;
use ut::generate::{fold_deltas, generate, GenerateOptions};
use ut::precision::Precision;
use ut::preset::{Preset, PresetError};
use ut::find::{FindByName, FindError};
use ut::timedelta::TimeDelta;
use ut::unit::TimeUnit;
use ut::validate::validate_number;

fn at(y: i32, m: u32, d: u32, h: u32, mi: u32, s: u32, nanos: u32) -> DateTime {
    DateTime {
        year: y,
        month: m,
        day: d,
        hour: h,
        minute: mi,
        second: s,
        nanosecond: nanos,
        offset: 0,
    }
}

fn items(texts: &[&str]) -> Vec<DeltaItem> {
    texts.iter().map(|s| DeltaItem::from_str(s).unwrap()).collect()
}

fn options() -> GenerateOptions {
    GenerateOptions {
        timestamp: None,
        preset: None,
        ymd: None,
        hms: None,
        truncate: None,
        deltas: Vec::new(),
    }
}

#[test]
fn folding_order_does_not_matter() {
    let base = at(2019, 6, 15, 12, 0, 0, 0);
    let orders = [
        ["1y", "+2mon", "-3d"],
        ["1y", "-3d", "+2mon"],
        ["+2mon", "1y", "-3d"],
        ["+2mon", "-3d", "1y"],
        ["-3d", "1y", "+2mon"],
        ["-3d", "+2mon", "1y"],
    ];
    for order in orders.iter() {
        assert_eq!(generate(&items(order), base), Ok(at(2020, 8, 12, 12, 0, 0, 0)));
    }
    let b1 = fold_deltas(&items(&["1y", "+2mon", "-3d"])).unwrap().build();
    let b2 = fold_deltas(&items(&["-3d", "+2mon", "1y"])).unwrap().build();
    assert_eq!(b1, b2);
    assert_eq!(b1, TimeDelta::new(1, 2, -3, 0, 0, 0, 0));
}

#[test]
fn generate_reports_errors() {
    let base = at(2019, 10, 31, 0, 0, 0, 0);
    assert_eq!(generate(&items(&["1mon"]), base), Err(UtErrorKind::WrongDate));
    assert_eq!(generate(&items(&[]), base), Ok(base));
    let big = items(&["2147483647d", "1d"]);
    assert!(fold_deltas(&big).is_none());
    assert_eq!(generate(&big, base), Err(UtErrorKind::DeltaError));
    assert_eq!(generate(&items(&["2147483647d", "24h"]), base), Err(UtErrorKind::DeltaError));
    assert_eq!(generate(&items(&["1500ms", "59s"]), base), Ok(at(2019, 10, 31, 0, 1, 0, 500_000_000)));
}

#[test]
fn base_datetime_from_each_source() {
    let now = at(2019, 6, 17, 11, 22, 33, 444_000_000);
    let o = options();
    assert_eq!(o.base_datetime(now, Precision::Second), Ok(now));

    let mut o = options();
    o.truncate = Some(TimeUnit::Hour);
    assert_eq!(o.base_datetime(now, Precision::Second), Ok(at(2019, 6, 17, 11, 0, 0, 0)));

    let mut o = options();
    o.preset = Some(Preset::Tomorrow);
    assert_eq!(o.base_datetime(now, Precision::Second), Ok(at(2019, 6, 18, 0, 0, 0, 0)));

    let mut o = options();
    o.preset = Some(Preset::Yesterday);
    o.hms = Some(Hms { h: 1, m: 2, s: 3 });
    assert_eq!(o.base_datetime(now, Precision::Second), Ok(at(2019, 6, 16, 1, 2, 3, 0)));

    let mut o = options();
    o.ymd = Some(Ymd { y: 2020, m: 2, d: 29 });
    assert_eq!(o.base_datetime(now, Precision::Second), Ok(at(2020, 2, 29, 0, 0, 0, 0)));

    let mut o = options();
    o.ymd = Some(Ymd { y: 2019, m: 2, d: 29 });
    assert_eq!(o.base_datetime(now, Precision::Second), Err(UtErrorKind::WrongDate));

    let mut o = options();
    o.hms = Some(Hms { h: 5, m: 0, s: 0 });
    assert_eq!(o.base_datetime(now, Precision::Second), Ok(at(2019, 6, 17, 5, 0, 0, 0)));

    let mut o = options();
    o.timestamp = Some(1560762129123);
    o.truncate = Some(TimeUnit::Second);
    assert_eq!(o.base_datetime(now, Precision::MilliSecond), Ok(at(2019, 6, 17, 9, 2, 9, 0)));
}

#[test]
fn presets_resolve_and_move() {
    assert_eq!(Preset::find_by_name("today"), Ok(Preset::Today));
    assert_eq!(Preset::find_by_name("y"), Ok(Preset::Yesterday));
    assert_eq!(
        Preset::find_by_name("t"),
        Err(PresetError::WrongName(FindError::Ambiguous(vec![
            "today".to_string(),
            "tomorrow".to_string()
        ])))
    );
    assert_eq!(Preset::find_by_name("a"), Err(PresetError::WrongName(FindError::NotFound)));
    let now = at(2019, 12, 31, 23, 0, 0, 0);
    assert_eq!(Preset::Today.as_datetime(now), Some(at(2019, 12, 31, 0, 0, 0, 0)));
    assert_eq!(Preset::Tomorrow.as_datetime(now), Some(at(2020, 1, 1, 0, 0, 0, 0)));
    assert_eq!(Preset::Yesterday.as_datetime(now), Some(at(2019, 12, 30, 0, 0, 0, 0)));
}

#[test]
fn config_and_validation() {
    let c = Config {
        offset: Some("+09:00".to_string()),
        precision: None,
        datetime_format: Some("%s".to_string()),
    };
    assert_eq!(c.offset(), Some("+09:00"));
    assert_eq!(c.precision(), None);
    assert_eq!(c.datetime_format(), Some("%s"));
    assert_eq!(validate_number(5, 0, 10, || "bad"), Ok(()));
    assert_eq!(validate_number(11, 0, 10, || "bad"), Err("bad"));
    assert_eq!(validate_number(-1, 0, 10, || "bad"), Err("bad"));
}
