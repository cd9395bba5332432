use reliakit::primitives::error::PrimitiveError;
use reliakit::lex::Rank;
use reliakit::primitives::semver::SemVer;

#[test]
fn parses_simple() {
    let v = SemVer::parse("1.2.3").unwrap();
    assert_eq!(v.major(), 1);
    assert_eq!(v.minor(), 2);
    assert_eq!(v.patch(), 3);
    assert!(v.pre().is_none());
    assert!(v.build().is_none());
}

#[test]
fn parses_with_pre_release() {
    let v = SemVer::parse("2.0.0-beta.1").unwrap();
    assert_eq!(v.pre(), Some("beta.1"));
    assert!(v.is_pre_release());
}

#[test]
fn parses_with_build() {
    let v = SemVer::parse("1.0.0+build.456").unwrap();
    assert_eq!(v.build(), Some("build.456"));
}

#[test]
fn parses_pre_and_build() {
    let v = SemVer::parse("1.0.0-alpha.1+build.001").unwrap();
    assert_eq!(v.pre(), Some("alpha.1"));
    assert_eq!(v.build(), Some("build.001"));
}

#[test]
fn semver_rejects_empty() {
    assert_eq!(SemVer::parse("").unwrap_err(), PrimitiveError::Empty);
}

#[test]
fn rejects_missing_components() {
    assert!(SemVer::parse("1.2").is_err());
}

#[test]
fn rejects_too_many_components() {
    assert!(SemVer::parse("1.2.3.4").is_err());
}

#[test]
fn rejects_leading_zeros() {
    assert!(SemVer::parse("1.02.3").is_err());
}

#[test]
fn rejects_non_numeric() {
    assert!(SemVer::parse("a.b.c").is_err());
}

#[test]
fn rejects_empty_pre_release() {
    assert!(SemVer::parse("1.0.0-").is_err());
}

#[test]
fn rejects_empty_build() {
    assert!(SemVer::parse("1.0.0+").is_err());
}

#[test]
fn rejects_build_with_plus() {
    assert!(SemVer::parse("1.0.0+a+b").is_err());
}

#[test]
fn rejects_invalid_pre_release_identifiers() {
    assert!(SemVer::parse("1.0.0-alpha..1").is_err());
    assert!(SemVer::parse("1.0.0-alpha_1").is_err());
    assert!(SemVer::parse("1.0.0-01").is_err());
}

#[test]
fn rejects_invalid_build_identifiers() {
    assert!(SemVer::parse("1.0.0+build..1").is_err());
    assert!(SemVer::parse("1.0.0+build_1").is_err());
}

#[test]
fn display() {
    assert_eq!(SemVer::parse("1.2.3").unwrap().to_string(), "1.2.3");
    assert_eq!(
        SemVer::parse("2.0.0-beta.1").unwrap().to_string(),
        "2.0.0-beta.1"
    );
    assert_eq!(
        SemVer::parse("1.0.0+build").unwrap().to_string(),
        "1.0.0+build"
    );
    assert_eq!(
        SemVer::parse("1.0.0-alpha+build").unwrap().to_string(),
        "1.0.0-alpha+build"
    );
}

#[test]
fn new_constructor() {
    let v = SemVer::new(1, 0, 0);
    assert_eq!(v.to_string(), "1.0.0");
}

#[test]
fn ordering() {
    let v1 = SemVer::parse("1.0.0").unwrap();
    let v2 = SemVer::parse("2.0.0").unwrap();
    let v3 = SemVer::parse("1.1.0").unwrap();
    assert!(v1 < v2);
    assert!(v1 < v3);
    assert!(v3 < v2);
}

#[test]
fn pre_release_sorts_below_release() {
    let release = SemVer::parse("1.0.0").unwrap();
    let pre = SemVer::parse("1.0.0-alpha").unwrap();
    assert!(pre < release);
    assert!(release > pre);
}

#[test]
fn pre_release_compared_lexicographically() {
    let alpha = SemVer::parse("1.0.0-alpha").unwrap();
    let beta = SemVer::parse("1.0.0-beta").unwrap();
    assert!(alpha < beta);
}

#[test]
fn pre_release_numeric_identifiers_compare_numerically() {
    let two = SemVer::parse("1.0.0-alpha.2").unwrap();
    let ten = SemVer::parse("1.0.0-alpha.10").unwrap();
    assert!(two < ten);
}

#[test]
fn pre_release_numeric_identifier_comparison_does_not_overflow() {
    let smaller = SemVer::parse("1.0.0-alpha.999999999999999999999999999999").unwrap();
    let larger = SemVer::parse("1.0.0-alpha.1000000000000000000000000000000").unwrap();
    assert!(smaller < larger);
}

#[test]
fn pre_release_numeric_identifiers_sort_before_non_numeric() {
    let numeric = SemVer::parse("1.0.0-1").unwrap();
    let alpha = SemVer::parse("1.0.0-alpha").unwrap();
    assert!(numeric < alpha);
}

#[test]
fn precedence_ignores_build_metadata() {
    let first = SemVer::parse("1.0.0+build.1").unwrap();
    let second = SemVer::parse("1.0.0+build.2").unwrap();

    assert_eq!(first.cmp_precedence(&second), core::cmp::Ordering::Equal);
}

#[test]
fn ord_is_consistent_with_eq_for_build_metadata() {
    let first = SemVer::parse("1.0.0+build.1").unwrap();
    let second = SemVer::parse("1.0.0+build.2").unwrap();

    assert_ne!(first, second);
    assert_ne!(first.cmp(&second), core::cmp::Ordering::Equal);
}

#[test]
fn from_str_and_string_comparisons() {
    let version = "1.2.3-beta.1".parse::<SemVer>().unwrap();
    let owned = "1.2.3-beta.1".to_string();
    assert_eq!(version, "1.2.3-beta.1");
    assert_eq!(version, owned);
    assert!("1.2".parse::<SemVer>().is_err());
}

#[test]
fn rank_of_versions() {
    let a = SemVer::parse("1.0.0-alpha.1").unwrap();
    let b = SemVer::parse("1.0.0-alpha.beta").unwrap();
    let c = SemVer::parse("1.0.0-alpha").unwrap();
    assert_eq!(a.precedence_rank(&b), Rank::Less);
    assert_eq!(b.precedence_rank(&a), Rank::Greater);
    assert_eq!(c.precedence_rank(&a), Rank::Less);
    assert_eq!(a.version_rank(&a.clone()), Rank::Equal);
}

#[test]
fn spec_precedence_example_chain() {
    let chain = [
        "1.0.0-alpha",
        "1.0.0-alpha.1",
        "1.0.0-alpha.beta",
        "1.0.0-beta",
        "1.0.0-beta.2",
        "1.0.0-beta.11",
        "1.0.0-rc.1",
        "1.0.0",
        "2.0.0",
        "2.1.0",
        "2.1.1",
    ];
    for pair in chain.windows(2) {
        let lo = SemVer::parse(pair[0]).unwrap();
        let hi = SemVer::parse(pair[1]).unwrap();
        assert!(lo < hi, "{} < {}", pair[0], pair[1]);
        assert_eq!(hi.cmp_precedence(&lo), core::cmp::Ordering::Greater);
    }
}

#[test]
fn build_metadata_breaks_ties_in_total_order() {
    let none = SemVer::parse("1.0.0").unwrap();
    let some = SemVer::parse("1.0.0+a").unwrap();
    assert_eq!(none.cmp(&some), core::cmp::Ordering::Less);
    assert_eq!(none.cmp_precedence(&some), core::cmp::Ordering::Equal);
    let b1 = SemVer::parse("1.0.0+b.1").unwrap();
    let b2 = SemVer::parse("1.0.0+b.2").unwrap();
    assert_eq!(b1.cmp(&b2), core::cmp::Ordering::Less);
}

#[test]
fn error_messages_of_rejections() {
    assert_eq!(
        SemVer::parse("1.0.0+a+b").unwrap_err(),
        PrimitiveError::Invalid { message: "build metadata must not contain '+'" }
    );
    assert_eq!(
        SemVer::parse("1.2.3.4").unwrap_err(),
        PrimitiveError::Invalid { message: "semver must have exactly three dot-separated components" }
    );
    assert_eq!(
        SemVer::parse("1.0.0-01").unwrap_err(),
        PrimitiveError::Invalid { message: "numeric pre-release identifiers must not have leading zeros" }
    );
    assert_eq!(
        SemVer::parse("1.02.3").unwrap_err(),
        PrimitiveError::Invalid { message: "semver component must not have leading zeros" }
    );
    assert_eq!(
        SemVer::parse("99999999999999999999.0.0").unwrap_err(),
        PrimitiveError::Invalid { message: "semver component must be a non-negative integer" }
    );
}

#[test]
fn to_string_round_trips_through_parse() {
    for text in ["0.0.0", "18446744073709551615.1.2", "1.2.3-x.7.z-9+b.01"] {
        let v = SemVer::parse(text).unwrap();
        assert_eq!(v.to_string(), text);
        assert_eq!(SemVer::parse(&v.to_string()).unwrap(), v);
    }
}
