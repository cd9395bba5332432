use reliakit::collections::CollectionError;

#[test]
fn display_too_few() {
    assert_eq!(
        CollectionError::TooFew { min: 2, actual: 0 }.to_string(),
        "collection is too small: minimum is 2, actual is 0"
    );
}

#[test]
fn display_too_many() {
    assert_eq!(
        CollectionError::TooMany { max: 5, actual: 6 }.to_string(),
        "collection is too large: maximum is 5, actual is 6"
    );
}

#[test]
fn display_invalid_bounds() {
    assert_eq!(
        CollectionError::InvalidBounds { min: 5, max: 3 }.to_string(),
        "invalid bounds: MIN (5) must not exceed MAX (3)"
    );
}

#[test]
fn display_zero_capacity() {
    assert_eq!(
        CollectionError::ZeroCapacity.to_string(),
        "capacity must be greater than zero"
    );
}

#[test]
fn display_duplicate() {
    assert_eq!(
        CollectionError::Duplicate.to_string(),
        "collection contains a duplicate key or element"
    );
}

#[test]
fn display_large_numbers() {
    assert_eq!(
        CollectionError::TooMany { max: usize::MAX, actual: 0 }.to_string(),
        format!("collection is too large: maximum is {}, actual is 0", usize::MAX)
    );
}
