use reliakit::primitives::error::PrimitiveError;
use reliakit::primitives::text::{Email, HexString, HttpUrl, Slug};

// Slug
#[test]
fn slug_accepts_valid() {
    assert_eq!(Slug::new("my-service").unwrap().as_str(), "my-service");
    assert_eq!(Slug::new("api-v2").unwrap().as_str(), "api-v2");
    assert_eq!(Slug::new("user123").unwrap().as_str(), "user123");
}

#[test]
fn slug_rejects_empty() {
    assert_eq!(Slug::new("").unwrap_err(), PrimitiveError::Empty);
}

#[test]
fn slug_rejects_uppercase() {
    assert!(Slug::new("MySlug").is_err());
}

#[test]
fn slug_rejects_leading_hyphen() {
    assert!(Slug::new("-bad").is_err());
}

#[test]
fn slug_rejects_trailing_hyphen() {
    assert!(Slug::new("bad-").is_err());
}

#[test]
fn slug_rejects_consecutive_hyphens() {
    assert!(Slug::new("bad--slug").is_err());
}

#[test]
fn slug_rejects_spaces() {
    assert!(Slug::new("has space").is_err());
}

#[test]
fn slug_display() {
    
    assert_eq!(Slug::new("hello").unwrap().to_string(), "hello");
}

#[test]
fn slug_deref() {
    let s = Slug::new("hello").unwrap();
    assert_eq!(&*s, "hello");
}

#[test]
fn slug_from_str_and_string_comparisons() {
    let slug = "hello".parse::<Slug>().unwrap();
    let owned = String::from("hello");
    assert_eq!(slug, "hello");
    assert_eq!(slug, owned);
    assert!("Hello".parse::<Slug>().is_err());
}

#[test]
fn slug_converts_into_string() {
    let slug = Slug::new("hello").unwrap();
    let inner = String::from(slug);
    assert_eq!(inner, "hello");
}

// Email
#[test]
fn email_accepts_valid() {
    let e = Email::new("user@example.com").unwrap();
    assert_eq!(e.local(), "user");
    assert_eq!(e.domain(), "example.com");
}

#[test]
fn email_rejects_empty() {
    assert_eq!(Email::new("").unwrap_err(), PrimitiveError::Empty);
}

#[test]
fn email_rejects_missing_at() {
    assert!(Email::new("nodomain").is_err());
}

#[test]
fn email_rejects_multiple_at() {
    assert!(Email::new("a@b@c.com").is_err());
}

#[test]
fn email_rejects_no_dot_in_domain() {
    assert!(Email::new("user@nodot").is_err());
}

#[test]
fn email_rejects_empty_domain_labels() {
    assert!(Email::new("user@example..com").is_err());
    assert!(Email::new("user@.example.com").is_err());
    assert!(Email::new("user@example.com.").is_err());
}

#[test]
fn email_rejects_spaces() {
    assert!(Email::new("us er@example.com").is_err());
}

#[test]
fn email_rejects_tab() {
    assert!(Email::new("user\t@example.com").is_err());
}

#[test]
fn email_rejects_newline() {
    assert!(Email::new("user\n@example.com").is_err());
}

#[test]
fn url_rejects_whitespace_host() {
    assert!(HttpUrl::new("http://   ").is_err());
}

#[test]
fn url_rejects_whitespace_in_path() {
    assert!(HttpUrl::new("https://ex ample.com").is_err());
}

#[test]
fn email_display() {
    
    assert_eq!(Email::new("a@b.com").unwrap().to_string(), "a@b.com");
}

#[test]
fn email_from_str_and_string_comparisons() {
    let email = "a@b.com".parse::<Email>().unwrap();
    let owned = String::from("a@b.com");
    assert_eq!(email, "a@b.com");
    assert_eq!(email, owned);
    assert!("bad".parse::<Email>().is_err());
}

#[test]
fn email_string_ergonomics() {
    let email = Email::try_from(String::from("a@b.com")).unwrap();
    let borrowed: &str = email.as_ref();
    assert_eq!(borrowed, "a@b.com");
    assert_eq!(&*email, "a@b.com");

    let inner = String::from(email);
    assert_eq!(inner, "a@b.com");
}

// HttpUrl
#[test]
fn url_accepts_http() {
    let u = HttpUrl::new("http://example.com").unwrap();
    assert!(!u.is_https());
}

#[test]
fn url_accepts_https() {
    let u = HttpUrl::new("https://example.com/path").unwrap();
    assert!(u.is_https());
}

#[test]
fn url_rejects_empty() {
    assert_eq!(HttpUrl::new("").unwrap_err(), PrimitiveError::Empty);
}

#[test]
fn url_rejects_missing_scheme() {
    assert!(HttpUrl::new("ftp://example.com").is_err());
}

#[test]
fn url_rejects_empty_host() {
    assert!(HttpUrl::new("https://").is_err());
}

#[test]
fn url_rejects_missing_host_before_path() {
    assert!(HttpUrl::new("https:///path").is_err());
}

#[test]
fn url_display() {
    
    let u = HttpUrl::new("https://example.com").unwrap();
    assert_eq!(u.to_string(), "https://example.com");
}

#[test]
fn url_is_https_uppercase_scheme() {
    let u = HttpUrl::new("HTTPS://example.com").unwrap();
    assert!(u.is_https());
}

#[test]
fn url_accepts_uppercase_http_scheme() {
    let u = HttpUrl::new("HTTP://example.com").unwrap();
    assert!(!u.is_https());
}

#[test]
fn url_is_http_not_https() {
    let u = HttpUrl::new("http://example.com").unwrap();
    assert!(!u.is_https());
}

#[test]
fn url_from_str_and_string_comparisons() {
    let url = "https://example.com".parse::<HttpUrl>().unwrap();
    let owned = String::from("https://example.com");
    assert_eq!(url, "https://example.com");
    assert_eq!(url, owned);
    assert!("ftp://example.com".parse::<HttpUrl>().is_err());
}

#[test]
fn url_string_ergonomics() {
    let url = HttpUrl::try_from(String::from("https://example.com")).unwrap();
    let borrowed: &str = url.as_ref();
    assert_eq!(borrowed, "https://example.com");
    assert_eq!(&*url, "https://example.com");

    let inner = String::from(url);
    assert_eq!(inner, "https://example.com");
}

// HexString
#[test]
fn hex_accepts_plain() {
    let h = HexString::new("deadbeef").unwrap();
    assert_eq!(h.hex_digits(), "deadbeef");
    assert!(!h.has_prefix());
}

#[test]
fn hex_accepts_prefixed() {
    let h = HexString::new("0xdeadbeef").unwrap();
    assert_eq!(h.hex_digits(), "deadbeef");
    assert!(h.has_prefix());
}

#[test]
fn hex_accepts_uppercase() {
    assert!(HexString::new("DEADBEEF").is_ok());
}

#[test]
fn hex_rejects_empty() {
    assert_eq!(HexString::new("").unwrap_err(), PrimitiveError::Empty);
}

#[test]
fn hex_rejects_prefix_only() {
    assert!(HexString::new("0x").is_err());
}

#[test]
fn hex_rejects_invalid_chars() {
    assert!(HexString::new("xyz").is_err());
}

#[test]
fn hex_display() {
    
    assert_eq!(HexString::new("ff00").unwrap().to_string(), "ff00");
}

#[test]
fn hex_from_str_and_string_comparisons() {
    let hex = "ff00".parse::<HexString>().unwrap();
    let owned = String::from("ff00");
    assert_eq!(hex, "ff00");
    assert_eq!(hex, owned);
    assert!("xyz".parse::<HexString>().is_err());
}

#[test]
fn hex_string_ergonomics() {
    let hex = HexString::try_from(String::from("ff00")).unwrap();
    let borrowed: &str = hex.as_ref();
    assert_eq!(borrowed, "ff00");
    assert_eq!(&*hex, "ff00");

    let inner = String::from(hex);
    assert_eq!(inner, "ff00");
}

#[test]
fn email_rejects_missing_local_or_domain() {
    assert_eq!(
        Email::new("@example.com").unwrap_err(),
        PrimitiveError::Invalid { message: "invalid email address" }
    );
    assert!(Email::new("user@").is_err());
}

#[test]
fn url_errors_name_the_broken_rule() {
    assert_eq!(
        HttpUrl::new("ftp://x").unwrap_err(),
        PrimitiveError::Invalid { message: "URL must start with http:// or https://" }
    );
    assert_eq!(
        HttpUrl::new("http://?q").unwrap_err(),
        PrimitiveError::Invalid { message: "URL must have a non-empty host" }
    );
    assert_eq!(
        HttpUrl::new("http://host/a b").unwrap_err(),
        PrimitiveError::Invalid { message: "URL must not contain whitespace" }
    );
}

#[test]
fn hex_errors_name_the_broken_rule() {
    assert_eq!(
        HexString::new("0X").unwrap_err(),
        PrimitiveError::Invalid { message: "hex string must not be empty after prefix" }
    );
    assert_eq!(HexString::new("0Xab").unwrap().hex_digits(), "ab");
}

#[test]
fn url_with_non_ascii_host_is_not_https() {
    let u = HttpUrl::new("http://\u{e9}.com").unwrap();
    assert!(!u.is_https());
    let v = HttpUrl::new("https://\u{e9}.com").unwrap();
    assert!(v.is_https());
}
