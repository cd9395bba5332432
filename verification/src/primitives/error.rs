//! The error shared by all primitive constructors.

use crate::decimal::{decimal, render_u128};
use vstd::prelude::*;

verus! {

/// Stable category for a primitive validation error.
#[derive(Debug, Copy, Clone, PartialEq, Eq, Hash, Structural)]
pub enum PrimitiveErrorKind {
    /// The value was empty or whitespace-only.
    Empty,
    /// The value was shorter than the minimum allowed length.
    TooShort,
    /// The value was longer than the maximum allowed length.
    TooLong,
    /// The value was outside the inclusive allowed range.
    OutOfRange,
    /// The value did not match the expected format.
    InvalidFormat,
}

/// Error returned when a primitive value fails validation.
#[non_exhaustive]
#[derive(Debug, Clone, PartialEq, Eq)]
pub enum PrimitiveError {
    /// The value was empty or contained only whitespace.
    Empty,
    /// The value was shorter than the minimum allowed length.
    TooShort {
        /// Minimum allowed length.
        min: usize,
        /// Actual observed length.
        actual: usize,
    },
    /// The value was longer than the maximum allowed length.
    TooLong {
        /// Maximum allowed length.
        max: usize,
        /// Actual observed length.
        actual: usize,
    },
    /// The value was outside the inclusive allowed range.
    OutOfRange {
        /// Minimum allowed value.
        min: u128,
        /// Maximum allowed value.
        max: u128,
        /// Actual observed value.
        actual: u128,
    },
    /// The value did not match the expected format or pattern.
    Invalid {
        /// Static validation message describing why the value is invalid.
        message: &'static str,
    },
}

/// Result alias used by primitive constructors.
pub type PrimitiveResult<T> = Result<T, PrimitiveError>;

/// The category of an error.
pub open spec fn kind_of(e: PrimitiveError) -> PrimitiveErrorKind {
    match e {
        PrimitiveError::Empty => PrimitiveErrorKind::Empty,
        PrimitiveError::TooShort { .. } => PrimitiveErrorKind::TooShort,
        PrimitiveError::TooLong { .. } => PrimitiveErrorKind::TooLong,
        PrimitiveError::OutOfRange { .. } => PrimitiveErrorKind::OutOfRange,
        PrimitiveError::Invalid { .. } => PrimitiveErrorKind::InvalidFormat,
    }
}

/// The human-readable rendering of an error.
pub open spec fn describe(e: PrimitiveError) -> Seq<char> {
    match e {
        PrimitiveError::Empty => "value must not be empty"@,
        PrimitiveError::TooShort { min, actual } => "value is too short: minimum is "@ + decimal(
            min as nat,
        ) + ", actual is "@ + decimal(actual as nat),
        PrimitiveError::TooLong { max, actual } => "value is too long: maximum is "@ + decimal(
            max as nat,
        ) + ", actual is "@ + decimal(actual as nat),
        PrimitiveError::OutOfRange { min, max, actual } => "value is out of range: expected "@
            + decimal(min as nat) + "..="@ + decimal(max as nat) + ", actual is "@ + decimal(
            actual as nat,
        ),
        PrimitiveError::Invalid { message } => "invalid value: "@ + message@,
    }
}

impl PrimitiveError {
    /// Returns the stable category for this error.
    pub fn kind(&self) -> (k: PrimitiveErrorKind)
        ensures
            k == kind_of(*self),
    {
        match self {
            PrimitiveError::Empty => PrimitiveErrorKind::Empty,
            PrimitiveError::TooShort { .. } => PrimitiveErrorKind::TooShort,
            PrimitiveError::TooLong { .. } => PrimitiveErrorKind::TooLong,
            PrimitiveError::OutOfRange { .. } => PrimitiveErrorKind::OutOfRange,
            PrimitiveError::Invalid { .. } => PrimitiveErrorKind::InvalidFormat,
        }
    }

    /// Renders the error as human-readable text.
    pub fn to_string(&self) -> (s: String)
        ensures
            s@ == describe(*self),
    {
        match self {
            PrimitiveError::Empty => "value must not be empty".to_owned(),
            PrimitiveError::TooShort { min, actual } => {
                let mut s = "value is too short: minimum is ".to_owned();
                s.append(render_u128(*min as u128).as_str());
                s.append(", actual is ");
                s.append(render_u128(*actual as u128).as_str());
                s
            },
            PrimitiveError::TooLong { max, actual } => {
                let mut s = "value is too long: maximum is ".to_owned();
                s.append(render_u128(*max as u128).as_str());
                s.append(", actual is ");
                s.append(render_u128(*actual as u128).as_str());
                s
            },
            PrimitiveError::OutOfRange { min, max, actual } => {
                let mut s = "value is out of range: expected ".to_owned();
                s.append(render_u128(*min).as_str());
                s.append("..=");
                s.append(render_u128(*max).as_str());
                s.append(", actual is ");
                s.append(render_u128(*actual).as_str());
                s
            },
            PrimitiveError::Invalid { message } => {
                let mut s = "invalid value: ".to_owned();
                s.append(message);
                s
            },
        }
    }
}

} // verus!
