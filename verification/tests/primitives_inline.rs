use core::hash::{Hash, Hasher};
use reliakit::primitives::error::PrimitiveError;
use reliakit::primitives::inline::InlineStr;

// A small FNV-1a hasher keeps this dependency-free; it only needs to tell
// different contents apart.
struct Fnv(u64);

impl Hasher for Fnv {
    fn finish(&self) -> u64 {
        self.0
    }
    fn write(&mut self, bytes: &[u8]) {
        for &b in bytes {
            self.0 = (self.0 ^ u64::from(b)).wrapping_mul(0x0100_0000_01b3);
        }
    }
}

fn fnv(value: &InlineStr<1, 8>) -> u64 {
    let mut hasher = Fnv(0xcbf2_9ce4_8422_2325);
    value.hash(&mut hasher);
    hasher.finish()
}

fn eq_str<T: PartialEq<str> + Copy>(value: T, s: &str) -> bool {
    value == *s
}

#[test]
fn inline_accepts_valid_length() {
    let value = InlineStr::<3, 12>::new("service").unwrap();
    assert_eq!(value.as_str(), "service");
    assert_eq!(value.len(), 7);
    assert_eq!(value.min_len(), 3);
    assert_eq!(value.max_len(), 12);
    assert!(!value.is_empty());
}

#[test]
fn inline_rejects_too_short() {
    assert_eq!(
        InlineStr::<3, 12>::new("ab").unwrap_err(),
        PrimitiveError::TooShort { min: 3, actual: 2 }
    );
}

#[test]
fn inline_rejects_too_long() {
    assert_eq!(
        InlineStr::<1, 5>::new("service").unwrap_err(),
        PrimitiveError::TooLong { max: 5, actual: 7 }
    );
}

#[test]
fn counts_bytes_not_chars() {
    // "éå" is two characters but four UTF-8 bytes.
    let value = InlineStr::<4, 4>::new("éå").unwrap();
    assert_eq!(value.len(), 4);
    assert_eq!(value.as_str(), "éå");
    // A single two-byte character does not fit a one-byte budget.
    assert_eq!(
        InlineStr::<1, 1>::new("é").unwrap_err(),
        PrimitiveError::TooLong { max: 1, actual: 2 }
    );
}

#[test]
fn inline_rejects_whitespace_only_when_min_positive() {
    assert_eq!(
        InlineStr::<1, 5>::new("  ").unwrap_err(),
        PrimitiveError::Empty
    );
}

#[test]
fn inline_allows_zero_min_whitespace_only() {
    let value = InlineStr::<0, 5>::new("   ").unwrap();
    assert_eq!(value.as_str(), "   ");
    assert_eq!(value.len(), 3);
}

#[test]
fn allows_empty_when_min_zero() {
    let value = InlineStr::<0, 4>::new("").unwrap();
    assert!(value.is_empty());
    assert_eq!(value.as_str(), "");
}

#[test]
fn zero_capacity_only_holds_empty() {
    assert!(InlineStr::<0, 0>::new("").unwrap().is_empty());
    assert_eq!(
        InlineStr::<0, 0>::new("x").unwrap_err(),
        PrimitiveError::TooLong { max: 0, actual: 1 }
    );
}

#[test]
fn inline_handles_invalid_bounds() {
    assert_eq!(
        InlineStr::<5, 3>::new("abcd").unwrap_err(),
        PrimitiveError::OutOfRange {
            min: 5,
            max: 3,
            actual: 4
        }
    );
}

#[test]
fn exact_min_and_max_fit() {
    assert_eq!(InlineStr::<3, 3>::new("abc").unwrap().len(), 3);
    assert!(InlineStr::<3, 3>::new("ab").is_err());
    assert!(InlineStr::<3, 3>::new("abcd").is_err());
}

#[test]
fn is_copy() {
    let a = InlineStr::<1, 8>::new("copy").unwrap();
    let b = a;
    // `a` is still usable because the value is `Copy`, not moved.
    assert_eq!(a.as_str(), "copy");
    assert_eq!(b.as_str(), "copy");
}

#[test]
fn as_bytes_excludes_unused_tail() {
    let value = InlineStr::<1, 16>::new("hi").unwrap();
    assert_eq!(value.as_bytes(), b"hi");
}

#[test]
fn deref_and_as_ref_to_str() {
    let value = InlineStr::<1, 8>::new("api").unwrap();
    let s: &str = value.as_ref();
    assert_eq!(s, "api");
    // `starts_with` is a `str` method reached through `Deref`.
    assert!(value.starts_with("ap"));
}

#[test]
fn equality_and_ordering() {
    let a = InlineStr::<1, 8>::new("alpha").unwrap();
    let b = InlineStr::<1, 8>::new("beta").unwrap();
    assert_eq!(a, InlineStr::<1, 8>::new("alpha").unwrap());
    assert_ne!(a, b);
    assert!(a < b);
    assert_eq!(a, "alpha");
}

#[test]
fn from_str_and_try_from() {
    let parsed: InlineStr<1, 8> = "node".parse().unwrap();
    assert_eq!(parsed.as_str(), "node");
    let converted = InlineStr::<1, 8>::try_from("node").unwrap();
    assert_eq!(parsed, converted);
    assert!("toolongforbudget".parse::<InlineStr<1, 8>>().is_err());
}

#[test]
fn hash_distinguishes_contents() {
    let a = InlineStr::<1, 8>::new("alpha").unwrap();
    assert_eq!(fnv(&a), fnv(&InlineStr::<1, 8>::new("alpha").unwrap()));
    // Different contents hash differently, so a no-op hash impl is caught.
    assert_ne!(fnv(&a), fnv(&InlineStr::<1, 8>::new("beta").unwrap()));
}

#[test]
fn str_equality_both_impls() {
    let a = InlineStr::<1, 8>::new("alpha").unwrap();
    // `PartialEq<&str>`: both equal and not equal.
    assert!(a == "alpha");
    assert!(a != "other");
    // `PartialEq<str>` (the unsized form) is selected by a generic bound.
    assert!(eq_str(a, "alpha"));
    assert!(!eq_str(a, "other"));
}

#[test]
fn inline_to_string_gives_text() {
    let value = InlineStr::<3, 12>::new("service").unwrap();
    assert_eq!(value.to_string(), "service");
}

#[test]
fn inline_whitespace_checked_after_length() {
    // Too long wins over whitespace-only.
    assert_eq!(
        InlineStr::<1, 2>::new("   ").unwrap_err(),
        PrimitiveError::TooLong { max: 2, actual: 3 }
    );
    // Unicode whitespace counts as whitespace.
    assert_eq!(InlineStr::<1, 8>::new("\u{3000}").unwrap_err(), PrimitiveError::Empty);
}

#[test]
fn inline_orders_by_code_point() {
    let a = InlineStr::<1, 8>::new("ab").unwrap();
    let b = InlineStr::<1, 8>::new("abc").unwrap();
    let c = InlineStr::<1, 8>::new("é").unwrap();
    assert!(a < b);
    assert!(b < c);
    assert_eq!(a.cmp(&b), core::cmp::Ordering::Less);
    assert_eq!(c.as_bytes(), "é".as_bytes());
}

#[test]
fn display_and_debug() {
    let value = InlineStr::<3, 12>::new("service").unwrap();
    assert_eq!(value.to_string(), "service");
    assert_eq!(value.debug_string(), "\"service\"");
}

#[test]
fn debug_string_escapes_quotes() {
    let value = InlineStr::<0, 12>::new("a\"b").unwrap();
    assert_eq!(value.debug_string(), "\"a\\\"b\"");
}
