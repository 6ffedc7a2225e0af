use ut::delta::{DeltaItem, DeltaItemError};
use ut::find::FindError;
use ut::timedelta::{TimeDelta, TimeDeltaBuilder};
use ut::unit::{TimeUnit, TimeUnitError};

#[test]
fn delta_from_str() {
    assert_eq!(
        DeltaItem::from_str("12y"),
        Ok(DeltaItem::new(TimeUnit::Year, 12))
    );
    assert_eq!(
        DeltaItem::from_str("-10mon"),
        Ok(DeltaItem::new(TimeUnit::Month, -10))
    );
    assert_eq!(
        DeltaItem::from_str("+31d"),
        Ok(DeltaItem::new(TimeUnit::Day, 31))
    );

    let r = DeltaItem::from_str("+ 31d");
    assert!(r.is_err());
    assert!(r.err().unwrap().is_wrong_format());

    let r = DeltaItem::from_str("aa d");
    assert!(r.is_err());
    assert!(r.err().unwrap().is_wrong_format());

    let r = DeltaItem::from_str("12345678901d");
    assert!(r.is_err());
    assert!(r.err().unwrap().is_wrong_value());

    let r = DeltaItem::from_str("31b");
    assert!(r.is_err());
    assert!(r.err().unwrap().is_wrong_unit());
}

#[test]
fn delta_from_str_errors() {
    assert_eq!(
        DeltaItem::from_str("31b"),
        Err(DeltaItemError::WrongUnit(TimeUnitError::WrongName(FindError::NotFound)))
    );
    assert_eq!(
        DeltaItem::from_str("3m"),
        Err(DeltaItemError::WrongUnit(TimeUnitError::WrongName(FindError::Ambiguous(vec![
            "month".to_string(),
            "minute".to_string(),
            "millisecond".to_string()
        ]))))
    );
    assert_eq!(
        DeltaItem::from_str("y"),
        Err(DeltaItemError::WrongFormat("y".to_string()))
    );
    assert!(DeltaItem::from_str("1").unwrap_err().is_wrong_format());
    assert!(DeltaItem::from_str("*1y").unwrap_err().is_wrong_format());
    assert!(DeltaItem::from_str("").unwrap_err().is_wrong_format());
    assert!(DeltaItem::from_str("2147483648s").unwrap_err().is_wrong_value());
    assert_eq!(
        DeltaItem::from_str("-2147483648s"),
        Ok(DeltaItem::new(TimeUnit::Second, i32::MIN))
    );
    assert_eq!(
        DeltaItem::from_str("+2MS"),
        Ok(DeltaItem::new(TimeUnit::MilliSecond, 2))
    );
    assert!(!DeltaItem::from_str("1x").unwrap_err().is_wrong_value());
}

fn fold(items: &[DeltaItem]) -> TimeDelta {
    items
        .iter()
        .fold(TimeDeltaBuilder::default(), |b, d| d.apply_timedelta_builder(b))
        .build()
}

#[test]
fn folding_two_items_commutes() {
    let a = DeltaItem::new(TimeUnit::MilliSecond, 1_500);
    let b = DeltaItem::new(TimeUnit::Second, 59);
    assert_eq!(fold(&[a, b]), fold(&[b, a]));
    assert_eq!(fold(&[a, b]), TimeDelta::new(0, 0, 0, 0, 1, 0, 500_000));
    let c = DeltaItem::new(TimeUnit::Day, 1);
    let d = DeltaItem::new(TimeUnit::Day, 1);
    assert_eq!(fold(&[c, d]).days(), 2);
}

#[test]
fn apply_timedelta_builder_dispatches_on_unit() {
    let b = DeltaItem::new(TimeUnit::Hour, 30).apply_timedelta_builder(TimeDeltaBuilder::default());
    assert_eq!(b.build(), TimeDelta::new(0, 0, 1, 6, 0, 0, 0));
    let b = DeltaItem::new(TimeUnit::MilliSecond, -2_001)
        .apply_timedelta_builder(TimeDeltaBuilder::default());
    assert_eq!(b.build(), TimeDelta::new(0, 0, 0, 0, 0, -2, -1_000));
}
