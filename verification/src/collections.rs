//! The error of bounded collection operations.

use crate::decimal::{decimal, render_u128};
use vstd::prelude::*;

verus! {

/// Error returned by bounded collection operations.
#[non_exhaustive]
#[derive(Debug, Clone, PartialEq, Eq, Structural)]
pub enum CollectionError {
    /// The collection has fewer elements than the required minimum.
    TooFew {
        /// The required minimum number of elements.
        min: usize,
        /// The actual number of elements.
        actual: usize,
    },
    /// The collection has more elements than the allowed maximum.
    TooMany {
        /// The allowed maximum number of elements.
        max: usize,
        /// The actual number of elements.
        actual: usize,
    },
    /// The const generic bounds are invalid (`MIN > MAX`).
    InvalidBounds {
        /// The configured minimum bound.
        min: usize,
        /// The configured maximum bound.
        max: usize,
    },
    /// A capacity of zero was requested where a positive capacity is required.
    ZeroCapacity,
    /// A duplicate key or element was supplied where uniqueness is required.
    Duplicate,
}

/// Result alias for bounded collection operations.
pub type CollectionResult<T = ()> = Result<T, CollectionError>;

/// The human-readable rendering of an error.
pub open spec fn collection_error_text(e: CollectionError) -> Seq<char> {
    match e {
        CollectionError::TooFew { min, actual } => "collection is too small: minimum is "@
            + decimal(min as nat) + ", actual is "@ + decimal(actual as nat),
        CollectionError::TooMany { max, actual } => "collection is too large: maximum is "@
            + decimal(max as nat) + ", actual is "@ + decimal(actual as nat),
        CollectionError::InvalidBounds { min, max } => "invalid bounds: MIN ("@ + decimal(
            min as nat,
        ) + ") must not exceed MAX ("@ + decimal(max as nat) + ")"@,
        CollectionError::ZeroCapacity => "capacity must be greater than zero"@,
        CollectionError::Duplicate => "collection contains a duplicate key or element"@,
    }
}

impl CollectionError {
    /// Renders the error as human-readable text.
    pub fn to_string(&self) -> (s: String)
        ensures
            s@ == collection_error_text(*self),
    {
        match self {
            CollectionError::TooFew { min, actual } => {
                let mut s = "collection is too small: minimum is ".to_owned();
                s.append(render_u128(*min as u128).as_str());
                s.append(", actual is ");
                s.append(render_u128(*actual as u128).as_str());
                s
            },
            CollectionError::TooMany { max, actual } => {
                let mut s = "collection is too large: maximum is ".to_owned();
                s.append(render_u128(*max as u128).as_str());
                s.append(", actual is ");
                s.append(render_u128(*actual as u128).as_str());
                s
            },
            CollectionError::InvalidBounds { min, max } => {
                let mut s = "invalid bounds: MIN (".to_owned();
                s.append(render_u128(*min as u128).as_str());
                s.append(") must not exceed MAX (");
                s.append(render_u128(*max as u128).as_str());
                s.append(")");
                s
            },
            CollectionError::ZeroCapacity => "capacity must be greater than zero".to_owned(),
            CollectionError::Duplicate => "collection contains a duplicate key or element".to_owned(),
        }
    }
}

} // verus!
