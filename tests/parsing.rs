use ut::datetime::{Hms, HmsError, Ymd, YmdError};
use ut::offset::{Offset, OffsetError, OffsetSign};

fn ymd(y: i32, m: u32, d: u32) -> Ymd {
    Ymd { y, m, d }
}

fn hms(h: u32, m: u32, s: u32) -> Hms {
    Hms { h, m, s }
}

fn offset(sign: OffsetSign, h: i32, m: i32) -> Offset {
    Offset { sign, h, m }
}

#[test]
fn ymd_from_str() {
    assert_eq!(Ymd::from_str("20190621"), Ok(ymd(2019, 6, 21)),);
    assert_eq!(Ymd::from_str("2019-06-21"), Ok(ymd(2019, 6, 21)),);
    assert_eq!(Ymd::from_str("2019/06/21"), Ok(ymd(2019, 6, 21)),);
    assert_eq!(Ymd::from_str("2019/6/21"), Ok(ymd(2019, 6, 21)),);

    let r = Ymd::from_str("2020/2/29");
    assert!(r.is_ok());
    assert!(r.unwrap().into_datetime(0).is_ok());

    let r = Ymd::from_str("2019/2/29");
    assert!(r.is_ok());
    assert!(r.unwrap().into_datetime(0).is_err());
}

#[test]
fn ymd_errors() {
    for s in ["2019", "201906", "2019061", "201906011", "2019-", "2019-06", "2019-06-", "-06-01", "99999-06-01", "2019--01", "2019-123-01", "2019-06-123", "--"] {
        assert_eq!(Ymd::from_str(s), Err(YmdError::WrongFormat(s.to_string())));
    }
    assert_eq!(
        Ymd::from_str("18990101"),
        Err(YmdError::WrongYear("18990101".to_string(), 1900, 2999))
    );
    assert!(matches!(Ymd::from_str("30000101"), Err(YmdError::WrongYear(_, 1900, 2999))));
    assert!(matches!(Ymd::from_str("29990001"), Err(YmdError::WrongMonth(_))));
    assert!(matches!(Ymd::from_str("29991301"), Err(YmdError::WrongMonth(_))));
    assert!(matches!(Ymd::from_str("29990132"), Err(YmdError::WrongDay(_))));
    assert!(matches!(ymd(2019, 4, 31).into_datetime(0), Err(YmdError::WrongDate(_))));
    let dt = ymd(2019, 6, 21).into_datetime(3600).unwrap();
    assert_eq!((dt.year, dt.month, dt.day, dt.hour, dt.offset), (2019, 6, 21, 0, 3600));
}

#[test]
fn hms_from_str() {
    assert_eq!(Hms::from_str("112233"), Ok(hms(11, 22, 33)));
    assert_eq!(Hms::from_str("11:22:33"), Ok(hms(11, 22, 33)));
    assert_eq!(Hms::from_str("1:2:3"), Ok(hms(1, 2, 3)));

    assert_eq!(Hms::from_str("00:00:00"), Ok(hms(0, 0, 0)));
    assert_eq!(Hms::from_str("23:59:59"), Ok(hms(23, 59, 59)));

    assert!(Hms::from_str("").is_err());
    assert!(Hms::from_str("1122334").is_err());
    assert!(Hms::from_str("11").is_err());
    assert!(Hms::from_str("11:").is_err());
    assert!(Hms::from_str("1122").is_err());
    assert!(Hms::from_str("11:22").is_err());
    assert!(Hms::from_str("11:22:").is_err());
    assert!(Hms::from_str("::").is_err());
}

#[test]
fn hms_errors() {
    assert_eq!(Hms::from_str("11:22"), Err(HmsError::WrongFormat("11:22".to_string())));
    assert_eq!(Hms::from_str("24:00:00"), Err(HmsError::WrongHour("24:00:00".to_string())));
    assert_eq!(Hms::from_str("236000"), Err(HmsError::WrongMinute("236000".to_string())));
    assert_eq!(Hms::from_str("23:59:60"), Err(HmsError::WrongSecond("23:59:60".to_string())));
}

#[test]
fn offset_from_str() {
    assert_eq!(Offset::from_str("0"), Ok(offset(OffsetSign::Unsigned, 0, 0)));
    assert_eq!(Offset::from_str("+9"), Ok(offset(OffsetSign::Plus, 9, 0)));
    assert_eq!(Offset::from_str("+09:00"), Ok(offset(OffsetSign::Plus, 9, 0)));
    assert_eq!(Offset::from_str("-10"), Ok(offset(OffsetSign::Minus, 10, 0)));
    assert_eq!(Offset::from_str("-10:00"), Ok(offset(OffsetSign::Minus, 10, 0)));
    assert_eq!(Offset::from_str("00:00"), Ok(offset(OffsetSign::Unsigned, 0, 0)));
    assert_eq!(Offset::from_str("00:00"), Ok(offset(OffsetSign::Unsigned, 0, 0)));

    let r = Offset::from_str("");
    assert!(r.is_err());
    assert!(r.err().unwrap().is_wrong_format());

    let r = Offset::from_str("24:00");
    assert!(r.is_err());
    assert!(r.err().unwrap().is_wrong_hour());

    let r = Offset::from_str("23:60");
    assert!(r.is_err());
    assert!(r.err().unwrap().is_wrong_minute());
}

#[test]
fn offset_seconds_and_errors() {
    assert_eq!(Offset::from_str("+0900").unwrap().to_seconds(), 9 * 3600);
    assert_eq!(Offset::from_str("-1000").unwrap().to_seconds(), -10 * 3600);
    assert_eq!(Offset::from_str("5:45").unwrap().to_seconds(), 5 * 3600 + 45 * 60);
    assert_eq!(Offset::from_str("1:2:3"), Err(OffsetError::Format("1:2:3".to_string())));
    assert_eq!(Offset::from_str("2400"), Err(OffsetError::Hour("2400".to_string())));
    assert_eq!(Offset::from_str("0960"), Err(OffsetError::Minute("0960".to_string())));
    assert_eq!(OffsetSign::Minus.apply(5), -5);
    assert_eq!(OffsetSign::Unsigned.apply(5), 5);
    assert_eq!(OffsetSign::Plus.apply(-5), -5);
}
