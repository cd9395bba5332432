//! Owned strings with inclusive character-length bounds.

use crate::chars::{all_ws, is_blank};
use crate::primitives::error::{PrimitiveError, PrimitiveResult};
use vstd::prelude::*;

verus! {

/// The outcome of checking `s` against the bounds `min..=max` (lengths in
/// characters): `Ok(())` or the error the constructor reports.
pub open spec fn bounded_check(s: Seq<char>, min: nat, max: nat) -> Result<(), PrimitiveError> {
    let actual = s.len();
    if min > max {
        Err(PrimitiveError::OutOfRange { min: min as u128, max: max as u128, actual: actual as u128 })
    } else if min > 0 && all_ws(s) {
        Err(PrimitiveError::Empty)
    } else if actual < min {
        Err(PrimitiveError::TooShort { min: min as usize, actual: actual as usize })
    } else if actual > max {
        Err(PrimitiveError::TooLong { max: max as usize, actual: actual as usize })
    } else {
        Ok(())
    }
}

/// Owned string constrained by inclusive character length bounds `MIN..=MAX`.
///
/// Length is measured in Unicode scalar values, not bytes.
#[derive(Debug, PartialEq, Eq, PartialOrd, Ord, Hash)]
pub struct BoundedStr<const MIN: usize, const MAX: usize>(String);

impl<const MIN: usize, const MAX: usize> View for BoundedStr<MIN, MAX> {
    type V = Seq<char>;

    closed spec fn view(&self) -> Seq<char> {
        self.0@
    }
}

impl<const MIN: usize, const MAX: usize> BoundedStr<MIN, MAX> {
    #[verifier::type_invariant]
    spec fn wf(self) -> bool {
        bounded_check(self.0@, MIN as nat, MAX as nat) is Ok
    }

    fn check(value: &str) -> (r: PrimitiveResult<()>)
        ensures
            r == bounded_check(value@, MIN as nat, MAX as nat),
    {
        let actual = value.unicode_len();
        if MIN > MAX {
            return Err(
                PrimitiveError::OutOfRange {
                    min: MIN as u128,
                    max: MAX as u128,
                    actual: actual as u128,
                },
            );
        }
        if MIN > 0 && is_blank(value) {
            return Err(PrimitiveError::Empty);
        }
        if actual < MIN {
            return Err(PrimitiveError::TooShort { min: MIN, actual });
        }
        if actual > MAX {
            return Err(PrimitiveError::TooLong { max: MAX, actual });
        }
        Ok(())
    }

    /// Creates a bounded string. With `MIN > MAX` every input is rejected with
    /// `OutOfRange`; with `MIN > 0` an empty or whitespace-only input is `Empty`.
    pub fn new(value: &str) -> (r: PrimitiveResult<BoundedStr<MIN, MAX>>)
        ensures
            match (r, bounded_check(value@, MIN as nat, MAX as nat)) {
                (Ok(b), Ok(())) => b@ == value@,
                (Err(e), Err(f)) => e == f,
                _ => false,
            },
    {
        match Self::check(value) {
            Ok(()) => Ok(BoundedStr(value.to_owned())),
            Err(e) => Err(e),
        }
    }

    /// Returns the underlying string slice.
    pub fn as_str(&self) -> (s: &str)
        ensures
            s@ == self@,
    {
        self.0.as_str()
    }

    /// Returns the owned inner string.
    pub fn into_inner(self) -> (s: String)
        ensures
            s@ == self@,
    {
        self.0
    }

    /// Returns the character length.
    pub fn len(&self) -> (n: usize)
        ensures
            n == self@.len(),
            MIN <= n <= MAX,
    {
        proof {
            use_type_invariant(self);
        }
        self.0.as_str().unicode_len()
    }

    /// Returns whether the string is empty.
    pub fn is_empty(&self) -> (b: bool)
        ensures
            b == (self@.len() == 0),
    {
        self.0.as_str().is_empty()
    }

    /// Returns the minimum allowed character length.
    pub fn min_len(&self) -> (n: usize)
        ensures
            n == MIN,
    {
        MIN
    }

    /// Returns the maximum allowed character length.
    pub fn max_len(&self) -> (n: usize)
        ensures
            n == MAX,
    {
        MAX
    }

    /// Returns a copy of the text.
    pub fn to_string(&self) -> (s: String)
        ensures
            s@ == self@,
    {
        self.0.clone()
    }
}

impl<const MIN: usize, const MAX: usize> Clone for BoundedStr<MIN, MAX> {
    fn clone(&self) -> (c: BoundedStr<MIN, MAX>)
        ensures
            c@ == self@,
    {
        proof {
            use_type_invariant(self);
        }
        BoundedStr(self.0.clone())
    }
}

impl<const MIN: usize, const MAX: usize> AsRef<str> for BoundedStr<MIN, MAX> {
    fn as_ref(&self) -> (s: &str)
        ensures
            s@ == self@,
    {
        self.as_str()
    }
}

impl<const MIN: usize, const MAX: usize> core::ops::Deref for BoundedStr<MIN, MAX> {
    type Target = str;

    fn deref(&self) -> (s: &str)
        ensures
            s@ == self@,
    {
        self.as_str()
    }
}

impl<const MIN: usize, const MAX: usize> TryFrom<String> for BoundedStr<MIN, MAX> {
    type Error = PrimitiveError;

    fn try_from(value: String) -> (r: Result<BoundedStr<MIN, MAX>, PrimitiveError>) {
        match Self::check(value.as_str()) {
            Ok(()) => Ok(BoundedStr(value)),
            Err(e) => Err(e),
        }
    }
}

impl<const MIN: usize, const MAX: usize> vstd::std_specs::convert::TryFromSpecImpl<String> for BoundedStr<MIN, MAX> {
    open spec fn obeys_try_from_spec() -> bool {
        true
    }

    closed spec fn try_from_spec(v: String) -> Result<BoundedStr<MIN, MAX>, PrimitiveError> {
        match bounded_check(v@, MIN as nat, MAX as nat) {
            Ok(()) => Ok(BoundedStr(v)),
            Err(e) => Err(e),
        }
    }
}

impl<'a, const MIN: usize, const MAX: usize> TryFrom<&'a str> for BoundedStr<MIN, MAX> {
    type Error = PrimitiveError;

    fn try_from(value: &'a str) -> (r: Result<BoundedStr<MIN, MAX>, PrimitiveError>)
        ensures
            match (r, bounded_check(value@, MIN as nat, MAX as nat)) {
                (Ok(b), Ok(())) => b@ == value@,
                (Err(e), Err(f)) => e == f,
                _ => false,
            },
    {
        Self::new(value)
    }
}

impl<'a, const MIN: usize, const MAX: usize> vstd::std_specs::convert::TryFromSpecImpl<&'a str> for BoundedStr<MIN, MAX> {
    open spec fn obeys_try_from_spec() -> bool {
        false
    }

    closed spec fn try_from_spec(v: &'a str) -> Result<BoundedStr<MIN, MAX>, PrimitiveError> {
        arbitrary()
    }
}

impl<const MIN: usize, const MAX: usize> From<BoundedStr<MIN, MAX>> for String {
    fn from(value: BoundedStr<MIN, MAX>) -> (r: String)
        ensures
            r@ == value@,
    {
        value.into_inner()
    }
}

impl<const MIN: usize, const MAX: usize> vstd::std_specs::convert::FromSpecImpl<BoundedStr<MIN, MAX>> for String {
    open spec fn obeys_from_spec() -> bool {
        false
    }

    closed spec fn from_spec(v: BoundedStr<MIN, MAX>) -> String {
        arbitrary()
    }
}

} // verus!
