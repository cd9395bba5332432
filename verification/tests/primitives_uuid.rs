use reliakit::primitives::error::PrimitiveError;
use reliakit::primitives::uuid::Uuid;

const SAMPLE: &str = "550e8400-e29b-41d4-a716-446655440000";

#[test]
fn parses_valid_uuid() {
    let u = Uuid::parse(SAMPLE).unwrap();
    assert_eq!(u.to_string(), SAMPLE);
}

#[test]
fn parses_uppercase() {
    let upper = "550E8400-E29B-41D4-A716-446655440000";
    let u = Uuid::parse(upper).unwrap();
    assert_eq!(u.to_string(), SAMPLE);
}

#[test]
fn uuid_rejects_empty() {
    assert_eq!(Uuid::parse("").unwrap_err(), PrimitiveError::Empty);
}

#[test]
fn uuid_rejects_too_short() {
    assert!(Uuid::parse("550e8400-e29b-41d4-a716").is_err());
}

#[test]
fn rejects_missing_dashes() {
    assert!(Uuid::parse("550e8400e29b41d4a716446655440000").is_err());
}

#[test]
fn rejects_invalid_hex() {
    assert!(Uuid::parse("550e8400-e29b-41d4-a716-44665544000g").is_err());
}

#[test]
fn version() {
    let u = Uuid::parse("550e8400-e29b-41d4-a716-446655440000").unwrap();
    assert_eq!(u.version(), 4);
}

#[test]
fn as_bytes_roundtrip() {
    let u = Uuid::parse(SAMPLE).unwrap();
    assert_eq!(u.as_bytes().len(), 16);
}

#[test]
fn display_is_lowercase() {
    let upper = "550E8400-E29B-41D4-A716-446655440000";
    let u = Uuid::parse(upper).unwrap();
    assert_eq!(u.to_string(), upper.to_lowercase());
}

#[test]
fn parse_decodes_exact_bytes() {
    let u = Uuid::parse("00112233-4455-6677-8899-aabbccddeeff").unwrap();
    assert_eq!(
        u.as_bytes(),
        &[0x00, 0x11, 0x22, 0x33, 0x44, 0x55, 0x66, 0x77, 0x88, 0x99, 0xaa, 0xbb, 0xcc, 0xdd, 0xee, 0xff]
    );
}

#[test]
fn non_ascii_text_is_invalid() {
    assert_eq!(
        Uuid::parse("550e8400-e29b-41d4-a716-44665544000é").unwrap_err(),
        PrimitiveError::Invalid {
            message: "UUID must be in the format xxxxxxxx-xxxx-xxxx-xxxx-xxxxxxxxxxxx"
        }
    );
}

#[test]
fn parse_of_rendered_text_gives_back_the_uuid() {
    for text in [
        "00000000-0000-0000-0000-000000000000",
        "FFFFFFFF-FFFF-FFFF-FFFF-FFFFFFFFFFFF",
        "0123abcd-4567-89ef-AbCd-ef0123456789",
    ] {
        let u = Uuid::parse(text).unwrap();
        let again = Uuid::parse(&u.to_string()).unwrap();
        assert_eq!(again.as_bytes(), u.as_bytes());
        assert_eq!(u.to_string(), text.to_lowercase());
    }
}
