use reliakit::secret::{ExposeSecret, ExposeSecretMut, Secret, SecretString};

#[test]
fn debug_redacts_secret() {
    let secret = Secret::new("token-123");
    assert_eq!(secret.debug_string(), "Secret([REDACTED])");
}

#[test]
fn display_redacts_secret() {
    let secret = Secret::new("token-123");
    assert_eq!(secret.to_string(), "[REDACTED]");
}

#[test]
fn expose_secret_returns_inner_reference() {
    let secret = Secret::new("token-123");
    assert_eq!(secret.expose_secret(), &"token-123");
}

#[test]
fn expose_secret_mut_allows_explicit_mutation() {
    let mut secret = Secret::new(1_u8);
    *secret.expose_secret_mut() = 2;
    assert_eq!(secret.expose_secret(), &2);
}

#[test]
fn into_inner_returns_inner_value() {
    let secret = Secret::new("token-123");
    assert_eq!(secret.into_inner(), "token-123");
}

#[test]
fn map_returns_new_secret() {
    let secret = Secret::new("token").map(|value| value.len());
    assert_eq!(secret.expose_secret(), &5);
    assert_eq!(secret.debug_string(), "Secret([REDACTED])");
}

#[test]
fn clone_clones_inner_value_without_leaking_debug() {
    let secret = Secret::new("token".to_string());
    let cloned = secret.clone();
    assert_eq!(cloned.expose_secret(), "token");
    assert_eq!(cloned.debug_string(), "Secret([REDACTED])");
}

#[test]
fn secret_string_wraps_owned_string() {
    let secret = SecretString::from_string("password");
    assert_eq!(secret.expose_secret(), "password");
    assert_eq!(secret.expose_str(), "password");
    assert_eq!(secret.to_string(), "[REDACTED]");
}

#[test]
fn ct_eq_matches_equal_bytes() {
    let secret = SecretString::from_string("s3cr3t-token");
    assert!(secret.ct_eq("s3cr3t-token"));
    assert!(secret.ct_eq(b"s3cr3t-token"));
}

#[test]
fn ct_eq_rejects_different_content_same_length() {
    let secret = SecretString::from_string("s3cr3t-token");
    assert!(!secret.ct_eq("s3cr3t-tokeX"));
    // First and last bytes differ but length matches.
    assert!(!secret.ct_eq("X3cr3t-tokeX"));
}

#[test]
fn ct_eq_rejects_different_length() {
    let secret = SecretString::from_string("abc");
    assert!(!secret.ct_eq("ab"));
    assert!(!secret.ct_eq("abcd"));
    assert!(!secret.ct_eq(""));
}

#[test]
fn ct_eq_works_for_byte_arrays_without_alloc_types() {
    let secret = Secret::new(*b"key-bytes");
    assert!(secret.ct_eq(b"key-bytes"));
    assert!(!secret.ct_eq(b"key-byteX"));
}

#[test]
fn ct_eq_empty_secret_matches_empty() {
    let secret = SecretString::from_string("");
    assert!(secret.ct_eq(""));
    assert!(!secret.ct_eq("x"));
}

#[test]
fn ct_eq_between_two_secrets_via_expose() {
    let a = SecretString::from_string("same-value");
    let b = SecretString::from_string("same-value");
    assert!(a.ct_eq(b.expose_secret()));
}

#[test]
fn from_wraps_value() {
    let secret: Secret<u32> = Secret::from(7);
    assert_eq!(secret.expose_secret(), &7);
    assert_eq!(secret.to_string(), "[REDACTED]");
}

#[test]
fn default_secret_holds_default_value() {
    let secret: Secret<u64> = Secret::default();
    assert_eq!(secret.into_inner(), 0);
}

#[test]
fn ct_eq_over_vec_and_slice() {
    let secret = Secret::new(vec![1u8, 2, 3]);
    assert!(secret.ct_eq(&[1u8, 2, 3][..]));
    assert!(!secret.ct_eq(&[1u8, 2, 4][..]));
    assert!(!secret.ct_eq(vec![1u8, 2]));
}
