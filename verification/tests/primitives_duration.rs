use reliakit::primitives::duration::HumanDuration;
use reliakit::primitives::error::PrimitiveError;

#[test]
fn parses_seconds() {
    assert_eq!(HumanDuration::parse("45s").unwrap().as_secs(), 45);
}

#[test]
fn parses_minutes() {
    assert_eq!(HumanDuration::parse("2m").unwrap().as_secs(), 120);
}

#[test]
fn parses_hours() {
    assert_eq!(HumanDuration::parse("1h").unwrap().as_secs(), 3600);
}

#[test]
fn parses_milliseconds() {
    assert_eq!(HumanDuration::parse("500ms").unwrap().as_millis(), 500);
}

#[test]
fn parses_combination() {
    let d = HumanDuration::parse("1h30m45s").unwrap();
    assert_eq!(d.as_secs(), 3600 + 1800 + 45);
}

#[test]
fn parses_minutes_and_seconds() {
    assert_eq!(HumanDuration::parse("2m30s").unwrap().as_secs(), 150);
}

#[test]
fn duration_rejects_empty() {
    assert_eq!(HumanDuration::parse("").unwrap_err(), PrimitiveError::Empty);
}

#[test]
fn rejects_unknown_unit() {
    assert!(HumanDuration::parse("5d").is_err());
}

#[test]
fn rejects_no_number() {
    assert!(HumanDuration::parse("s").is_err());
}

#[test]
fn as_duration() {
    let d = HumanDuration::parse("1s").unwrap();
    assert_eq!(d.as_duration().as_secs(), 1);
}

#[test]
fn display_seconds() {
    assert_eq!(HumanDuration::parse("45s").unwrap().to_string(), "45s");
}

#[test]
fn display_combined() {
    assert_eq!(HumanDuration::parse("1h30m").unwrap().to_string(), "1h30m");
}

#[test]
fn display_zero() {
    assert_eq!(HumanDuration::parse("0s").unwrap().to_string(), "0s");
}

#[test]
fn display_uses_milliseconds_for_fractions() {
    assert_eq!(HumanDuration::parse("1s500ms").unwrap().to_string(), "1500ms");
}

#[test]
fn parse_errors_name_the_problem() {
    assert_eq!(
        HumanDuration::parse("99999999999999999999s").unwrap_err(),
        PrimitiveError::Invalid { message: "duration number is too large" }
    );
    assert_eq!(
        HumanDuration::parse("5d").unwrap_err(),
        PrimitiveError::Invalid { message: "unknown time unit; use h, m, s, or ms" }
    );
    assert_eq!(
        HumanDuration::parse("5s ").unwrap_err(),
        PrimitiveError::Invalid { message: "expected a number before unit" }
    );
}

#[test]
fn repeated_units_are_rejected() {
    assert_eq!(
        HumanDuration::parse("1s1s").unwrap_err(),
        PrimitiveError::Invalid { message: "units must appear in descending order, each at most once" }
    );
}

#[test]
fn ascending_units_are_rejected() {
    assert_eq!(
        HumanDuration::parse("30m1h").unwrap_err(),
        PrimitiveError::Invalid { message: "units must appear in descending order, each at most once" }
    );
    assert!(HumanDuration::parse("500ms1s").is_err());
}

#[test]
fn descending_units_with_gaps_are_accepted() {
    assert_eq!(HumanDuration::parse("1h45s").unwrap().as_secs(), 3645);
    assert_eq!(HumanDuration::parse("2m250ms").unwrap().as_millis(), 120_250);
}

#[test]
fn total_beyond_duration_range_is_rejected() {
    assert_eq!(
        HumanDuration::parse("18446744073709551615h").unwrap_err(),
        PrimitiveError::Invalid { message: "duration overflow" }
    );
    assert_eq!(
        HumanDuration::parse("18446744073709551615s").unwrap().as_secs(),
        18_446_744_073_709_551_615
    );
}

#[test]
fn text_round_trips() {
    for s in ["1h30m", "45s", "1500ms", "0s", "2h5m7s", "3h250ms", "18446744073709551615s"] {
        let d = HumanDuration::parse(s).unwrap();
        assert_eq!(HumanDuration::parse(&d.to_string()).unwrap(), d);
    }
}
