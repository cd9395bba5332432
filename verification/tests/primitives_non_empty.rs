use reliakit::primitives::error::PrimitiveError;
use reliakit::primitives::non_empty::NonEmptyStr;

#[test]
fn accepts_valid_strings() {
    let value = NonEmptyStr::new("service-api").unwrap();
    assert_eq!(value.as_str(), "service-api");
    assert!(!value.is_empty());
}

#[test]
fn rejects_empty_string() {
    assert_eq!(NonEmptyStr::new("").unwrap_err(), PrimitiveError::Empty);
}

#[test]
fn rejects_whitespace_only_string() {
    assert_eq!(NonEmptyStr::new("   ").unwrap_err(), PrimitiveError::Empty);
}

#[test]
fn preserves_original_string() {
    let value = NonEmptyStr::new("  api  ").unwrap();
    assert_eq!(value.as_str(), "  api  ");
}

#[test]
fn non_empty_into_inner_returns_string() {
    let value = NonEmptyStr::new("hello").unwrap();
    assert_eq!(value.into_inner(), "hello");
}

#[test]
fn len_returns_byte_length() {
    let value = NonEmptyStr::new("hello").unwrap();
    assert_eq!(value.len(), 5);
}

#[test]
fn non_empty_display_formats_inner_string() {
    let value = NonEmptyStr::new("hello").unwrap();
    assert_eq!(value.to_string(), "hello");
}

#[test]
fn non_empty_as_ref_returns_str() {
    let value = NonEmptyStr::new("hello").unwrap();
    let s: &str = value.as_ref();
    assert_eq!(s, "hello");
}

#[test]
fn non_empty_deref_to_str() {
    let value = NonEmptyStr::new("hello").unwrap();
    assert_eq!(&*value, "hello");
}

#[test]
fn non_empty_try_from_string() {
    let value = NonEmptyStr::try_from(String::from("hello")).unwrap();
    assert_eq!(value.as_str(), "hello");
}

#[test]
fn non_empty_try_from_str_ref() {
    let value = NonEmptyStr::try_from("hello").unwrap();
    assert_eq!(value.as_str(), "hello");
}

#[test]
fn from_non_empty_str_into_string() {
    let value = NonEmptyStr::new("hello").unwrap();
    let s = String::from(value);
    assert_eq!(s, "hello");
}

#[test]
fn non_empty_len_counts_utf8_bytes() {
    let value = NonEmptyStr::new("é").unwrap();
    assert_eq!(value.len(), 2);
}
