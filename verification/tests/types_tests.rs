use imbibe::domain::tx::{Codespace, Fees, Memo, Msgs};
use imbibe::domain::{AnyMsg, Coin, Timestamp, TS_MAX_NANOS, TS_MIN_NANOS};
use imbibe::errors::InvalidValueError;
use imbibe::record::{parts_to_timestamp, timestamp_to_parts};
use imbibe::types::{bytes_to_sha256, Address, AppHash, NonEmptyBz, Sha256, ValidatorAddress};

#[test]
fn non_empty_wrappers_reject_empty_values() {
    assert!(NonEmptyBz::new(Vec::new()).is_none());
    assert!(NonEmptyBz::new(vec![1u8]).is_some());
    assert!(Memo::new(String::new()).is_none());
    assert!(Memo::new("m".to_string()).is_some());
    assert!(Codespace::new(String::new()).is_none());
    assert!(Codespace::new("wasm".to_string()).is_some());
    assert!(Fees::new(Vec::new()).is_none());
    assert!(Fees::new(vec![Coin::new(1, "uatom".to_string())]).is_some());
    assert!(Msgs::new(Vec::new()).is_none());
    assert!(Msgs::new(vec![AnyMsg::new("/a.B".to_string(), Vec::new())]).is_some());
}

#[test]
fn sha256_conversion_requires_exact_width() {
    let ok = bytes_to_sha256(&vec![7u8; 32]).unwrap();
    assert_eq!(ok.get().as_slice(), &[7u8; 32]);
    assert!(matches!(
        bytes_to_sha256(&vec![7u8; 31]),
        Err(InvalidValueError::Slice)
    ));
    assert!(matches!(
        bytes_to_sha256(&Vec::new()),
        Err(InvalidValueError::Slice)
    ));
}

#[test]
fn timestamp_range_is_enforced() {
    assert!(Timestamp::from_nanosecond(0).is_some());
    assert!(Timestamp::from_nanosecond(TS_MIN_NANOS).is_some());
    assert!(Timestamp::from_nanosecond(TS_MAX_NANOS).is_some());
    assert!(Timestamp::from_nanosecond(TS_MIN_NANOS - 1).is_none());
    assert!(Timestamp::from_nanosecond(TS_MAX_NANOS + 1).is_none());
}

#[test]
fn timestamp_splits_into_seconds_and_subseconds() {
    let t = Timestamp::from_nanosecond(1_500_000_001).unwrap();
    assert_eq!(timestamp_to_parts(&t).unwrap(), (1, 500_000_001));

    let whole_negative = Timestamp::from_nanosecond(-2_000_000_000).unwrap();
    assert_eq!(timestamp_to_parts(&whole_negative).unwrap(), (-2, 0));

    let fractional_negative = Timestamp::from_nanosecond(-1_500_000_000).unwrap();
    assert!(matches!(
        timestamp_to_parts(&fractional_negative),
        Err(InvalidValueError::Time)
    ));
}

#[test]
fn timestamp_parts_rejoin_exactly() {
    for nanos in [0i128, 1, 999_999_999, 1_700_000_000_123_456_789] {
        let t = Timestamp::from_nanosecond(nanos).unwrap();
        let (secs, sub) = timestamp_to_parts(&t).unwrap();
        let back = parts_to_timestamp(secs, sub).unwrap();
        assert_eq!(back.as_nanosecond(), nanos);
    }
    assert!(matches!(
        parts_to_timestamp(i64::MAX, 0),
        Err(InvalidValueError::Time)
    ));
}

#[test]
fn byte_wrappers_return_their_contents() {
    let h = Sha256::new(vec![9u8; 32]);
    assert_eq!(h.get().as_slice(), &[9u8; 32]);
    assert_eq!(h.into_bytes(), vec![9u8; 32]);

    let a = Address::new(vec![7u8; 20]);
    assert_eq!(a.as_bytes().as_slice(), &[7u8; 20]);

    let v = ValidatorAddress::new(vec![6u8; 20]);
    assert_eq!(v.get().as_slice(), &[6u8; 20]);

    let app = AppHash::new(vec![1, 2, 3]);
    assert_eq!(app.get().as_slice(), &[1, 2, 3]);
    assert_eq!(app.into_bytes(), vec![1, 2, 3]);

    let bz = NonEmptyBz::new(vec![5u8]).unwrap();
    assert_eq!(bz.get().as_slice(), &[5u8]);
    assert_eq!(bz.into_inner(), vec![5u8]);
}
