use ut::read::{read_next, ReadError};

#[test]
fn read_basics() {
    let r: Result<i64, ReadError> = read_next("12345".as_bytes());
    assert_eq!(Some(12345), r.ok());

    let r: Result<i64, ReadError> = read_next(" 12345".as_bytes());
    assert_eq!(Some(12345), r.ok());

    let r: Result<i64, ReadError> = read_next("12345 ".as_bytes());
    assert_eq!(Some(12345), r.ok());

    let r: Result<i64, ReadError> = read_next(" 12345 ".as_bytes());
    assert_eq!(Some(12345), r.ok());

    let r: Result<i64, ReadError> = read_next(" 11111 22222 ".as_bytes());
    assert_eq!(Some(11111), r.ok());
}

#[test]
fn read_edges() {
    assert_eq!(read_next("\n\t-42\n".as_bytes()), Ok(-42));
    assert_eq!(read_next("+7".as_bytes()), Ok(7));
    assert_eq!(read_next("9223372036854775807".as_bytes()), Ok(i64::MAX));
    assert_eq!(read_next("-9223372036854775808".as_bytes()), Ok(i64::MIN));
    assert!(matches!(read_next("9223372036854775808".as_bytes()), Err(ReadError::ParseInt(_))));
    assert!(matches!(read_next("".as_bytes()), Err(ReadError::ParseInt(_))));
    assert!(matches!(read_next("   ".as_bytes()), Err(ReadError::ParseInt(_))));
    assert!(matches!(read_next("12a".as_bytes()), Err(ReadError::ParseInt(_))));
    assert!(matches!(read_next("-".as_bytes()), Err(ReadError::ParseInt(_))));
}
