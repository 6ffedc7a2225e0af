use ut::argv::{DeltaArgv, HmsArgv, OffsetArgv, PrecisionArgv, PresetArgv, TimeUnitArgv};
use ut::delta::DeltaItem;
use ut::precision::Precision;
use ut::preset::Preset;
use ut::unit::TimeUnit;

#[test]
fn delta_parse() {
    let argv = DeltaArgv::default();
    assert_eq!(
        argv.parse_argv("1y").ok(),
        Some(DeltaItem::new(TimeUnit::Year, 1))
    );
    assert_eq!(
        argv.parse_argv("+2mon").ok(),
        Some(DeltaItem::new(TimeUnit::Month, 2))
    );
    assert_eq!(
        argv.parse_argv("-3d").ok(),
        Some(DeltaItem::new(TimeUnit::Day, -3))
    );
}

#[test]
fn delta_validate() {
    let validate_argv = |s: &str| DeltaArgv::validate_argv(s.to_string());

    assert!(validate_argv("1year").is_ok());
    assert!(validate_argv("+2month").is_ok());
    assert!(validate_argv("-3day").is_ok());

    assert!(validate_argv("y").is_err());
    assert!(validate_argv("1").is_err());
    assert!(validate_argv("12346789012y").is_err());
    assert!(validate_argv("1a").is_err());
    assert!(validate_argv("*1y").is_err());
}

#[test]
fn hms_validate() {
    assert!(HmsArgv::validate_argv("112233".to_string()).is_ok());
    assert!(HmsArgv::validate_argv("11:22:33".to_string()).is_ok());
    assert!(HmsArgv::validate_argv("1:2:3".to_string()).is_ok());
    assert!(HmsArgv::validate_argv("00:00:00".to_string()).is_ok());
    assert!(HmsArgv::validate_argv("23:59:59".to_string()).is_ok());

    assert!(HmsArgv::validate_argv("".to_string()).is_err());
    assert!(HmsArgv::validate_argv("1122334".to_string()).is_err());
    assert!(HmsArgv::validate_argv("11".to_string()).is_err());
    assert!(HmsArgv::validate_argv("1122".to_string()).is_err());
    assert!(HmsArgv::validate_argv("11:".to_string()).is_err());
    assert!(HmsArgv::validate_argv("11:22".to_string()).is_err());
    assert!(HmsArgv::validate_argv("11:22:".to_string()).is_err());
    assert!(HmsArgv::validate_argv("::".to_string()).is_err());
}

#[test]
fn hms_parse_reads_the_fields() {
    let argv = HmsArgv::default();
    let t = argv.parse_argv("112233").unwrap();
    assert_eq!((t.h, t.m, t.s), (11, 22, 33));
    let t = argv.parse_argv("1:2:3").unwrap();
    assert_eq!((t.h, t.m, t.s), (1, 2, 3));
    assert!(argv.parse_argv("24:00:00").is_err());
}

#[test]
fn offset_validate() {
    let validate_argv = |s: &str| OffsetArgv::validate_argv(s.to_string());

    assert!(validate_argv("0000").is_ok());
    assert!(validate_argv("00:00").is_ok());
    assert!(validate_argv("0:0").is_ok());
    assert!(validate_argv("0").is_ok());

    assert!(validate_argv("+0900").is_ok());
    assert!(validate_argv("+09:00").is_ok());
    assert!(validate_argv("+9:0").is_ok());
    assert!(validate_argv("+9").is_ok());

    assert!(validate_argv("+05:45").is_ok());
    assert!(validate_argv("-10:00").is_ok());

    assert!(validate_argv("").is_err());
    assert!(validate_argv("100").is_err());
    assert!(validate_argv("10300").is_err());
    assert!(validate_argv(":").is_err());
    assert!(validate_argv("24").is_err());
    assert!(validate_argv("23:60").is_err());
}

#[test]
fn offset_parse_gives_seconds() {
    let argv = OffsetArgv::default();
    assert_eq!(argv.parse_argv("0").ok(), Some(0));
    assert_eq!(argv.parse_argv("9").ok(), Some(9 * 3600));
    assert_eq!(argv.parse_argv("-10").ok(), Some(-10 * 3600));
    assert_eq!(argv.parse_argv("+0900").ok(), Some(9 * 3600));
    assert_eq!(argv.parse_argv("-1000").ok(), Some(-10 * 3600));
    assert_eq!(argv.parse_argv("+5:45").ok(), Some(5 * 3600 + 45 * 60));
}

#[test]
fn precision_parse() {
    let argv = PrecisionArgv::default();
    assert_eq!(argv.parse_argv("second").ok(), Some(Precision::Second));
}

#[test]
fn precision_validate() {
    let validate_argv = |s: &str| PrecisionArgv::validate_argv(s.to_string());
    assert!(validate_argv("second").is_ok());
    assert!(validate_argv("y").is_err());
    assert!(validate_argv("a").is_err());
}

#[test]
fn preset_parse() {
    let argv = PresetArgv::default();
    assert_eq!(argv.parse_argv("today").ok(), Some(Preset::Today));
    assert!(argv.parse_argv("t").is_err());
    assert!(argv.parse_argv("a").is_err());
}

#[test]
fn preset_validate() {
    let validate_argv = |s: &str| PresetArgv::validate_argv(s.to_string());
    assert!(validate_argv("today").is_ok());
    assert!(validate_argv("t").is_err());
    assert!(validate_argv("a").is_err());
}

#[test]
fn unit_parse() {
    let argv = TimeUnitArgv::default();
    assert_eq!(argv.parse_argv("year").ok(), Some(TimeUnit::Year));
    assert!(argv.parse_argv("m").is_err());
    assert!(argv.parse_argv("week").is_err());
}

#[test]
fn unit_validate() {
    let validate_argv = |s: &str| TimeUnitArgv::validate_argv(s.to_string());
    assert!(validate_argv("year").is_ok());
    assert!(validate_argv("m").is_err());
    assert!(validate_argv("week").is_err());
}
