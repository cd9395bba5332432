use reliakit::primitives::error::{PrimitiveError, PrimitiveErrorKind};

#[test]
fn display_empty() {
    assert_eq!(PrimitiveError::Empty.to_string(), "value must not be empty");
}

#[test]
fn display_too_short() {
    assert_eq!(
        PrimitiveError::TooShort { min: 3, actual: 1 }.to_string(),
        "value is too short: minimum is 3, actual is 1"
    );
}

#[test]
fn display_too_long() {
    assert_eq!(
        PrimitiveError::TooLong { max: 5, actual: 8 }.to_string(),
        "value is too long: maximum is 5, actual is 8"
    );
}

#[test]
fn display_out_of_range() {
    assert_eq!(
        PrimitiveError::OutOfRange { min: 1, max: 100, actual: 200 }.to_string(),
        "value is out of range: expected 1..=100, actual is 200"
    );
}

#[test]
fn display_invalid() {
    assert_eq!(
        PrimitiveError::Invalid { message: "bad format" }.to_string(),
        "invalid value: bad format"
    );
}

#[test]
fn kind_returns_stable_error_category() {
    assert_eq!(PrimitiveError::Empty.kind(), PrimitiveErrorKind::Empty);
    assert_eq!(
        PrimitiveError::TooShort { min: 3, actual: 1 }.kind(),
        PrimitiveErrorKind::TooShort
    );
    assert_eq!(
        PrimitiveError::TooLong { max: 5, actual: 8 }.kind(),
        PrimitiveErrorKind::TooLong
    );
    assert_eq!(
        PrimitiveError::OutOfRange { min: 1, max: 100, actual: 200 }.kind(),
        PrimitiveErrorKind::OutOfRange
    );
    assert_eq!(
        PrimitiveError::Invalid { message: "bad format" }.kind(),
        PrimitiveErrorKind::InvalidFormat
    );
}

#[test]
fn display_renders_large_numbers_exactly() {
    assert_eq!(
        PrimitiveError::OutOfRange { min: 0, max: u128::MAX, actual: 1_000_000 }.to_string(),
        "value is out of range: expected 0..=340282366920938463463374607431768211455, actual is 1000000"
    );
}
