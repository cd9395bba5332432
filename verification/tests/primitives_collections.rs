use reliakit::primitives::collections::NonEmptyVec;
use reliakit::primitives::error::PrimitiveError;

#[test]
fn rejects_empty_vec() {
    assert_eq!(NonEmptyVec::<i32>::new(vec![]).unwrap_err(), PrimitiveError::Empty);
}

#[test]
fn accepts_non_empty_vec() {
    let v = NonEmptyVec::new(vec![1, 2, 3]).unwrap();
    assert_eq!(v.len(), 3);
    assert!(!v.is_empty());
}

#[test]
fn from_one() {
    let v = NonEmptyVec::from_one(42);
    assert_eq!(v.first(), &42);
    assert_eq!(v.last(), &42);
}

#[test]
fn first_and_last() {
    let v = NonEmptyVec::new(vec![10, 20, 30]).unwrap();
    assert_eq!(v.first(), &10);
    assert_eq!(v.last(), &30);
}

#[test]
fn push_increases_len() {
    let mut v = NonEmptyVec::from_one(1);
    v.push(2);
    assert_eq!(v.len(), 2);
}

#[test]
fn deref_to_slice() {
    let v = NonEmptyVec::new(vec![1, 2, 3]).unwrap();
    assert_eq!(&v[..], &[1, 2, 3]);
}

#[test]
fn into_inner() {
    let v = NonEmptyVec::new(vec![1, 2]).unwrap();
    assert_eq!(v.into_inner(), vec![1, 2]);
}

#[test]
fn try_from_vec() {
    assert!(NonEmptyVec::<i32>::try_from(vec![]).is_err());
    assert!(NonEmptyVec::try_from(vec![1]).is_ok());
}

#[test]
fn from_into_vec() {
    let v = NonEmptyVec::from_one(99);
    let inner: Vec<i32> = Vec::from(v);
    assert_eq!(inner, vec![99]);
}

#[test]
fn iter() {
    let v = NonEmptyVec::new(vec![1, 2, 3]).unwrap();
    let sum: i32 = v.iter().sum();
    assert_eq!(sum, 6);
}

#[test]
fn push_keeps_first_and_moves_last() {
    let mut v = NonEmptyVec::from_one(1);
    v.push(7);
    assert_eq!(v.first(), &1);
    assert_eq!(v.last(), &7);
    assert_eq!(v.as_slice(), &[1, 7]);
}
