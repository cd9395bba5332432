use reliakit::primitives::error::PrimitiveError;
use reliakit::primitives::numeric::{ByteSize, Percent, Port, PositiveInt};

#[test]
fn percent_accepts_boundary_values() {
    assert_eq!(Percent::new(0).unwrap().get(), 0);
    assert_eq!(Percent::new(50).unwrap().get(), 50);
    assert_eq!(Percent::new(100).unwrap().get(), 100);
}

#[test]
fn percent_rejects_out_of_range() {
    assert_eq!(
        Percent::new(101).unwrap_err(),
        PrimitiveError::OutOfRange { min: 0, max: 100, actual: 101 }
    );
}

#[test]
fn percent_display_prints_percent_sign() {
    assert_eq!(Percent::new(42).unwrap().to_string(), "42%");
}

#[test]
fn port_accepts_boundaries() {
    assert_eq!(Port::new(1).unwrap().get(), 1);
    assert_eq!(Port::new(65535).unwrap().get(), 65535);
}

#[test]
fn port_rejects_zero() {
    assert_eq!(
        Port::new(0).unwrap_err(),
        PrimitiveError::OutOfRange { min: 1, max: 65535, actual: 0 }
    );
}

#[test]
fn byte_size_constructors_work() {
    assert_eq!(ByteSize::from_bytes(512).as_bytes(), 512);
    assert_eq!(ByteSize::from_kb(1).as_bytes(), 1024);
    assert_eq!(ByteSize::from_mb(1).as_bytes(), 1024 * 1024);
    assert_eq!(ByteSize::from_gb(1).as_bytes(), 1024 * 1024 * 1024);
}

#[test]
fn byte_size_saturates() {
    assert_eq!(ByteSize::from_gb(u64::MAX).as_bytes(), u64::MAX);
    assert_eq!(ByteSize::from_kb(u64::MAX / 1024 + 1).as_bytes(), u64::MAX);
}

#[test]
fn percent_try_from_u8() {
    assert_eq!(Percent::try_from(50u8).unwrap().get(), 50);
    assert!(Percent::try_from(101u8).is_err());
}

#[test]
fn percent_from_into_u8() {
    let p = Percent::new(75).unwrap();
    let v: u8 = p.into();
    assert_eq!(v, 75);
}

#[test]
fn port_try_from_u16() {
    assert_eq!(Port::try_from(8080u16).unwrap().get(), 8080);
    assert!(Port::try_from(0u16).is_err());
}

#[test]
fn port_from_into_u16() {
    let p = Port::new(443).unwrap();
    let v: u16 = p.into();
    assert_eq!(v, 443);
}

#[test]
fn port_display() {
    assert_eq!(Port::new(8080).unwrap().to_string(), "8080");
}

#[test]
fn byte_size_from_u64() {
    let s = ByteSize::from(2048u64);
    assert_eq!(s.as_bytes(), 2048);
}

#[test]
fn byte_size_into_u64() {
    let s = ByteSize::from_bytes(4096);
    let v: u64 = s.into();
    assert_eq!(v, 4096);
}

#[test]
fn positive_int_accepts_nonzero() {
    assert_eq!(PositiveInt::new(1).unwrap().get(), 1);
    assert_eq!(PositiveInt::new(u64::MAX).unwrap().get(), u64::MAX);
}

#[test]
fn positive_int_rejects_zero() {
    assert!(PositiveInt::new(0).is_err());
}

#[test]
fn positive_int_display() {
    assert_eq!(PositiveInt::new(42).unwrap().to_string(), "42");
}

#[test]
fn positive_int_try_from_and_into() {
    let p = PositiveInt::try_from(10u64).unwrap();
    let v: u64 = p.into();
    assert_eq!(v, 10);
}

#[test]
fn byte_size_display_works() {
    assert_eq!(ByteSize::from_bytes(512).to_string(), "512 B");
    assert_eq!(ByteSize::from_kb(1).to_string(), "1.00 KB");
    assert_eq!(ByteSize::from_kb(1536 / 1024).to_string(), "1.00 KB");
    assert_eq!(ByteSize::from_bytes(1536).to_string(), "1.50 KB");
    assert_eq!(
        ByteSize::from_bytes(1024 * 1024 + 512 * 1024).to_string(),
        "1.50 MB"
    );
    assert_eq!(
        ByteSize::from_bytes(1024 * 1024 * 1024 + 512 * 1024 * 1024).to_string(),
        "1.50 GB"
    );
}

#[test]
fn byte_size_text_matches_float_formatting() {
    let samples: [u64; 12] = [
        0,
        1023,
        1024,
        1152,
        1160,
        1048575,
        1048576,
        5_000_000_000,
        9_007_199_254_740_993,
        18_014_398_509_481_983,
        u64::MAX - 1,
        u64::MAX,
    ];
    for b in samples {
        let expected = if b < 1024 {
            format!("{b} B")
        } else if b < 1024 * 1024 {
            format!("{:.2} KB", b as f64 / 1024.0)
        } else if b < 1024 * 1024 * 1024 {
            format!("{:.2} MB", b as f64 / (1024.0 * 1024.0))
        } else {
            format!("{:.2} GB", b as f64 / (1024.0 * 1024.0 * 1024.0))
        };
        assert_eq!(ByteSize::from_bytes(b).to_string(), expected, "{b}");
    }
    assert_eq!(ByteSize::from_bytes(1152).to_string(), "1.12 KB");
}
