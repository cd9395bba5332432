use reliakit::primitives::bounded::BoundedStr;
use reliakit::primitives::error::PrimitiveError;

#[test]
fn bounded_accepts_valid_length() {
    let value = BoundedStr::<3, 12>::new("service").unwrap();
    assert_eq!(value.as_str(), "service");
    assert_eq!(value.len(), 7);
    assert_eq!(value.min_len(), 3);
    assert_eq!(value.max_len(), 12);
}

#[test]
fn bounded_rejects_too_short() {
    assert_eq!(
        BoundedStr::<3, 12>::new("ab").unwrap_err(),
        PrimitiveError::TooShort { min: 3, actual: 2 }
    );
}

#[test]
fn bounded_rejects_too_long() {
    assert_eq!(
        BoundedStr::<3, 5>::new("service").unwrap_err(),
        PrimitiveError::TooLong { max: 5, actual: 7 }
    );
}

#[test]
fn counts_unicode_chars() {
    let value = BoundedStr::<2, 2>::new("éå").unwrap();
    assert_eq!(value.len(), 2);
    assert_eq!(value.as_str().len(), 4);
}

#[test]
fn bounded_rejects_whitespace_only_when_min_positive() {
    assert_eq!(BoundedStr::<1, 5>::new("  ").unwrap_err(), PrimitiveError::Empty);
}

#[test]
fn bounded_handles_invalid_bounds() {
    assert_eq!(
        BoundedStr::<5, 3>::new("abcd").unwrap_err(),
        PrimitiveError::OutOfRange { min: 5, max: 3, actual: 4 }
    );
}

#[test]
fn bounded_into_inner_returns_string() {
    let value = BoundedStr::<3, 10>::new("hello").unwrap();
    assert_eq!(value.into_inner(), "hello");
}

#[test]
fn is_empty_returns_false_for_valid() {
    let value = BoundedStr::<3, 10>::new("hello").unwrap();
    assert!(!value.is_empty());
}

#[test]
fn bounded_display_formats_inner_string() {
    let value = BoundedStr::<3, 10>::new("hello").unwrap();
    assert_eq!(value.to_string(), "hello");
}

#[test]
fn bounded_as_ref_returns_str() {
    let value = BoundedStr::<3, 10>::new("hello").unwrap();
    let s: &str = value.as_ref();
    assert_eq!(s, "hello");
}

#[test]
fn bounded_deref_to_str() {
    let value = BoundedStr::<3, 10>::new("hello").unwrap();
    assert_eq!(&*value, "hello");
}

#[test]
fn bounded_try_from_string() {
    let value = BoundedStr::<3, 10>::try_from(String::from("hello")).unwrap();
    assert_eq!(value.as_str(), "hello");
}

#[test]
fn bounded_try_from_str_ref() {
    let value = BoundedStr::<3, 10>::try_from("hello").unwrap();
    assert_eq!(value.as_str(), "hello");
}

#[test]
fn from_bounded_str_into_string() {
    let value = BoundedStr::<3, 10>::new("hello").unwrap();
    let s = String::from(value);
    assert_eq!(s, "hello");
}

#[test]
fn bounded_allows_zero_min_whitespace_only() {
    let value = BoundedStr::<0, 5>::new("   ").unwrap();
    assert_eq!(value.as_str(), "   ");
}

#[test]
fn bounded_treats_unicode_spaces_as_blank() {
    assert_eq!(
        BoundedStr::<1, 5>::new("\u{3000}\t").unwrap_err(),
        PrimitiveError::Empty
    );
}
