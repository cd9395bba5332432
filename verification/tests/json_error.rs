use reliakit::json::{
    JsonDecodeError, JsonDecodeErrorKind, JsonError, JsonErrorKind, JsonFromStrError,
    JsonLimitKind, JsonNumberError, JsonPath, JsonPathSegment,
};

#[test]
fn limit_kind_descriptions() {
    assert_eq!(JsonLimitKind::InputBytes.as_str(), "input bytes");
    assert_eq!(JsonLimitKind::Depth.as_str(), "nesting depth");
    assert_eq!(JsonLimitKind::TotalDecodedStringBytes.as_str(), "total decoded string bytes");
}

#[test]
fn path_renders_keys_and_indices() {
    let path = JsonPath::from_segments(vec![
        JsonPathSegment::Key("items".to_string()),
        JsonPathSegment::Index(12),
        JsonPathSegment::Key("id".to_string()),
    ]);
    assert_eq!(path.to_string(), "$.items[12].id");
    assert_eq!(path.segments().len(), 3);
    assert_eq!(JsonPath::default().to_string(), "$");
}

#[test]
fn parse_error_text_with_and_without_path() {
    let e = JsonError::new(JsonErrorKind::UnexpectedByte, 7, 1, 8);
    assert_eq!(e.to_string(), "unexpected byte at byte 7, line 1, column 8");
    assert_eq!(e.offset(), 7);
    assert_eq!(e.line(), 1);
    assert_eq!(e.column(), 8);
    assert!(e.path().is_none());
    let e = e.with_path(JsonPath::from_segments(vec![JsonPathSegment::Index(0)]));
    assert_eq!(e.to_string(), "unexpected byte at byte 7, line 1, column 8, path: $[0]");
    assert_eq!(e.kind(), &JsonErrorKind::UnexpectedByte);
}

#[test]
fn limit_and_serialization_error_text() {
    let e = JsonError::new(JsonErrorKind::LimitExceeded(JsonLimitKind::Depth), 100, 3, 4);
    assert_eq!(e.to_string(), "limit exceeded: nesting depth at byte 100, line 3, column 4");
    let w = JsonError::new(JsonErrorKind::WriteFailure, 0, 0, 0);
    assert_eq!(w.to_string(), "failed to write output");
    let n = JsonError::new(JsonErrorKind::NonFiniteNumber, 0, 0, 0);
    assert_eq!(n.to_string(), "number is not representable as a finite f64");
}

#[test]
fn number_and_decode_errors() {
    assert_eq!(JsonNumberError::NotFinite.to_string(), "number is not finite");
    let d = JsonDecodeError::missing_field("missing `id`");
    assert_eq!(d.kind(), JsonDecodeErrorKind::MissingField);
    assert_eq!(d.message(), "missing `id`");
    assert_eq!(d.to_string(), "missing `id`");
    assert_eq!(JsonDecodeError::number("x").kind(), JsonDecodeErrorKind::Number);
    assert_eq!(JsonDecodeError::unexpected_type("x").kind(), JsonDecodeErrorKind::UnexpectedType);
}

#[test]
fn from_str_error_wraps_both_sides() {
    let p: JsonFromStrError = JsonError::new(JsonErrorKind::TrailingData, 2, 1, 3).into();
    assert_eq!(
        p.to_string(),
        "invalid JSON: trailing data after JSON value at byte 2, line 1, column 3"
    );
    let d: JsonFromStrError = JsonDecodeError::unexpected_type("expected a string").into();
    assert_eq!(d.to_string(), "JSON did not match the target type: expected a string");
}

#[test]
fn serialization_errors_have_no_position() {
    let e = JsonError::serialization(JsonErrorKind::WriteFailure);
    assert_eq!((e.offset(), e.line(), e.column()), (0, 0, 0));
    assert_eq!(e.to_string(), "failed to write output");
}
