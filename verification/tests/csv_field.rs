use reliakit::csv::{CsvDecodeError, CsvField};

#[test]
fn integers_round_trip_and_reject() {
    assert_eq!(255u8.encode_field(), "255");
    assert_eq!(u8::decode_field("255").unwrap(), 255);
    assert!(u8::decode_field("256").is_err());
    assert!(u8::decode_field("").is_err());
    assert_eq!(i32::decode_field("-5").unwrap(), -5);
}

#[test]
fn bool_is_strict() {
    assert_eq!(true.encode_field(), "true");
    assert_eq!(false.encode_field(), "false");
    assert!(bool::decode_field("true").unwrap());
    assert!(!bool::decode_field("false").unwrap());
    assert!(bool::decode_field("True").is_err());
    assert!(bool::decode_field("1").is_err());
}

#[test]
fn char_is_strict() {
    assert_eq!('a'.encode_field(), "a");
    assert_eq!(char::decode_field("a").unwrap(), 'a');
    let crab = '🦀';
    assert_eq!(char::decode_field(&crab.encode_field()).unwrap(), crab);
    assert!(char::decode_field("").is_err());
    assert!(char::decode_field("abc").is_err());
}

#[test]
fn string_encode_and_decode() {
    assert_eq!(String::from("hi").encode_field(), "hi");
    assert_eq!(String::decode_field("hi").unwrap(), "hi");
    assert_eq!(String::decode_field("").unwrap(), "");
}

#[test]
fn option_uses_empty_for_none() {
    assert_eq!(Option::<u8>::None.encode_field(), "");
    assert_eq!(Some(7u8).encode_field(), "7");
    assert_eq!(Option::<u8>::decode_field("").unwrap(), None);
    assert_eq!(Option::<u8>::decode_field("7").unwrap(), Some(7));
    assert!(Option::<u8>::decode_field("x").is_err());
}

#[test]
fn integer_edges_and_signs() {
    assert_eq!(u8::decode_field("+7").unwrap(), 7);
    assert!(u8::decode_field("-0").is_err());
    assert!(u8::decode_field("+").is_err());
    assert!(i8::decode_field("-").is_err());
    assert_eq!(i8::decode_field("-128").unwrap(), i8::MIN);
    assert!(i8::decode_field("128").is_err());
    assert_eq!(i128::decode_field(&i128::MIN.encode_field()).unwrap(), i128::MIN);
    assert_eq!(u128::decode_field(&u128::MAX.encode_field()).unwrap(), u128::MAX);
    assert!(u128::decode_field("340282366920938463463374607431768211456").is_err());
    assert_eq!(i64::decode_field("007").unwrap(), 7);
    assert!(u32::decode_field(" 1").is_err());
    assert_eq!((-42i16).encode_field(), "-42");
    assert_eq!(usize::decode_field(&usize::MAX.encode_field()).unwrap(), usize::MAX);
    assert_eq!(isize::decode_field(&isize::MIN.encode_field()).unwrap(), isize::MIN);
}

#[test]
fn decode_errors_carry_messages() {
    let e = u16::decode_field("x").unwrap_err();
    assert_eq!(e.message(), "field is not an integer that fits the target type");
    assert_eq!(e.field_index(), None);
    assert_eq!(e.at_field(3).field_index(), Some(3));
    assert_eq!(bool::decode_field("yes").unwrap_err().message(), "field is not `true` or `false`");
    assert_eq!(char::decode_field("").unwrap_err().message(), "field is empty");
    assert_eq!(char::decode_field("ab").unwrap_err().message(), "field is not a single char");
    assert_eq!(
        CsvDecodeError::field("bad").at_field(1),
        CsvDecodeError::field("bad").at_field(1)
    );
}
