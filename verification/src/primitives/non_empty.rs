//! Owned strings that are neither empty nor whitespace-only.

use crate::chars::{all_ws, is_blank};
use crate::primitives::error::{PrimitiveError, PrimitiveResult};
use vstd::prelude::*;

verus! {

/// Owned string that is not empty and not whitespace-only. The original text,
/// including surrounding whitespace, is kept.
#[derive(Debug, PartialEq, Eq, PartialOrd, Ord, Hash)]
pub struct NonEmptyStr(String);

impl View for NonEmptyStr {
    type V = Seq<char>;

    closed spec fn view(&self) -> Seq<char> {
        self.0@
    }
}

impl NonEmptyStr {
    #[verifier::type_invariant]
    spec fn wf(self) -> bool {
        !all_ws(self.0@)
    }

    /// Creates a `NonEmptyStr`; empty and whitespace-only inputs are rejected
    /// with `Empty`.
    pub fn new(value: &str) -> (r: PrimitiveResult<NonEmptyStr>)
        ensures
            all_ws(value@) ==> r == Err::<NonEmptyStr, PrimitiveError>(PrimitiveError::Empty),
            !all_ws(value@) ==> (r matches Ok(s) && s@ == value@),
    {
        if is_blank(value) {
            return Err(PrimitiveError::Empty);
        }
        Ok(NonEmptyStr(value.to_owned()))
    }

    /// Returns the underlying string slice.
    pub fn as_str(&self) -> (s: &str)
        ensures
            s@ == self@,
    {
        self.0.as_str()
    }

    /// Returns the owned inner string.
    pub fn into_inner(self) -> (s: String)
        ensures
            s@ == self@,
    {
        self.0
    }

    /// Returns the byte length of the UTF-8 text.
    pub fn len(&self) -> (n: usize)
        ensures
            n == vstd::utf8::encode_utf8(self@).len() as usize,
    {
        let s = self.0.as_str();
        s.len()
    }

    /// Always returns `false`: the text is never empty.
    pub fn is_empty(&self) -> (b: bool)
        ensures
            !b,
            self@.len() > 0,
    {
        proof {
            use_type_invariant(self);
        }
        false
    }

    /// Returns a copy of the text.
    pub fn to_string(&self) -> (s: String)
        ensures
            s@ == self@,
    {
        self.0.clone()
    }
}

impl Clone for NonEmptyStr {
    fn clone(&self) -> (c: NonEmptyStr)
        ensures
            c@ == self@,
    {
        proof {
            use_type_invariant(self);
        }
        NonEmptyStr(self.0.clone())
    }
}

impl AsRef<str> for NonEmptyStr {
    fn as_ref(&self) -> (s: &str)
        ensures
            s@ == self@,
    {
        self.as_str()
    }
}

impl core::ops::Deref for NonEmptyStr {
    type Target = str;

    fn deref(&self) -> (s: &str)
        ensures
            s@ == self@,
    {
        self.as_str()
    }
}

impl TryFrom<String> for NonEmptyStr {
    type Error = PrimitiveError;

    fn try_from(value: String) -> (r: Result<NonEmptyStr, PrimitiveError>) {
        if is_blank(value.as_str()) {
            return Err(PrimitiveError::Empty);
        }
        Ok(NonEmptyStr(value))
    }
}

impl vstd::std_specs::convert::TryFromSpecImpl<String> for NonEmptyStr {
    open spec fn obeys_try_from_spec() -> bool {
        true
    }

    closed spec fn try_from_spec(v: String) -> Result<NonEmptyStr, PrimitiveError> {
        if all_ws(v@) {
            Err(PrimitiveError::Empty)
        } else {
            Ok(NonEmptyStr(v))
        }
    }
}

impl<'a> TryFrom<&'a str> for NonEmptyStr {
    type Error = PrimitiveError;

    fn try_from(value: &'a str) -> (r: Result<NonEmptyStr, PrimitiveError>)
        ensures
            all_ws(value@) ==> r == Err::<NonEmptyStr, PrimitiveError>(PrimitiveError::Empty),
            !all_ws(value@) ==> (r matches Ok(s) && s@ == value@),
    {
        NonEmptyStr::new(value)
    }
}

impl<'a> vstd::std_specs::convert::TryFromSpecImpl<&'a str> for NonEmptyStr {
    open spec fn obeys_try_from_spec() -> bool {
        false
    }

    closed spec fn try_from_spec(v: &'a str) -> Result<NonEmptyStr, PrimitiveError> {
        arbitrary()
    }
}

impl From<NonEmptyStr> for String {
    fn from(value: NonEmptyStr) -> (r: String)
        ensures
            r@ == value@,
    {
        value.into_inner()
    }
}

impl vstd::std_specs::convert::FromSpecImpl<NonEmptyStr> for String {
    open spec fn obeys_from_spec() -> bool {
        false
    }

    closed spec fn from_spec(v: NonEmptyStr) -> String {
        arbitrary()
    }
}

} // verus!
