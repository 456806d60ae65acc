use bytes::Bytes;
use workingcopy::rawbundle2::{MononokeTypeError, RawBundle2, ThriftRawBundle2};

#[test]
fn bad_thrift() {
    let thrift_fc = ThriftRawBundle2::UnknownField(-1);
    RawBundle2::from_thrift(thrift_fc).expect_err("unexpected OK - unknown field");
}

#[test]
fn unknown_field_is_named_in_the_error() {
    for (field, digits) in [(-1, "-1"), (0, "0"), (7, "7"), (42, "42"), (i32::MAX, "2147483647"), (i32::MIN, "-2147483648")] {
        assert_eq!(
            RawBundle2::from_thrift(ThriftRawBundle2::UnknownField(field)).unwrap_err(),
            MononokeTypeError::InvalidThrift(
                "RawBundle2".to_string(),
                format!("unknown rawbundle2 field: {}", digits),
            )
        );
    }
}

#[test]
fn thrift_round_trip() {
    for data in [vec![], vec![0u8], vec![1, 2, 3, 255], (0..=255u8).collect::<Vec<u8>>()] {
        let bundle = RawBundle2::new_bytes(data.clone());
        let thrift_fc = bundle.clone().into_thrift();
        assert_eq!(thrift_fc, ThriftRawBundle2::Bytes(data));
        let back = RawBundle2::from_thrift(thrift_fc).expect("thrift roundtrips should always be valid");
        assert_eq!(back, bundle);
    }
}

#[test]
fn size_is_the_number_of_bytes() {
    assert_eq!(RawBundle2::new_bytes(vec![]).size(), 0);
    assert_eq!(RawBundle2::new_bytes(vec![9; 1000]).size(), 1000);
}

#[test]
fn starts_with_compares_a_prefix() {
    let bundle = RawBundle2::new_bytes(b"HG20\0\0\0\0".to_vec());
    assert!(bundle.starts_with(b""));
    assert!(bundle.starts_with(b"HG20"));
    assert!(bundle.starts_with(b"HG20\0\0\0\0"));
    assert!(!bundle.starts_with(b"HG10"));
    assert!(!bundle.starts_with(b"G"));
    assert!(!bundle.starts_with(b"HG20\0\0\0\0\0"));
    assert!(RawBundle2::new_bytes(vec![]).starts_with(b""));
    assert!(!RawBundle2::new_bytes(vec![]).starts_with(b"H"));
}

#[test]
fn bytes_come_back_unchanged() {
    let bundle = RawBundle2::new_bytes(vec![5, 6, 7]);
    assert_eq!(bundle.as_bytes(), &Bytes::from(vec![5u8, 6, 7]));
    assert_eq!(bundle.as_bytes().len(), 3);
    assert_eq!(bundle.clone().into_bytes().to_vec(), vec![5, 6, 7]);
    assert_eq!(bundle, RawBundle2::Bytes(Bytes::from_static(&[5, 6, 7])));
}

#[test]
fn debug_text_gives_the_length() {
    assert_eq!(RawBundle2::new_bytes(vec![]).debug_text(), "RawBundle2::Bytes(length 0)");
    assert_eq!(RawBundle2::new_bytes(vec![1; 9]).debug_text(), "RawBundle2::Bytes(length 9)");
    assert_eq!(RawBundle2::new_bytes(vec![1; 10]).debug_text(), "RawBundle2::Bytes(length 10)");
    assert_eq!(RawBundle2::new_bytes(vec![1; 12345]).debug_text(), "RawBundle2::Bytes(length 12345)");
}
