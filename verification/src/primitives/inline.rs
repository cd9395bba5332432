//! Strings held inline in a fixed byte buffer, bounded in UTF-8 bytes.

use crate::chars::{all_ws, is_blank, str_eq};
use crate::derive::codegen::{debug_quoted, quote};
use crate::lex::{lex_compare, lex_rank};
use crate::ordering::{ordering_of, to_ordering};
use crate::primitives::error::{PrimitiveError, PrimitiveResult};
use core::cmp::Ordering;
use vstd::prelude::*;
use vstd::std_specs::cmp::{PartialEqSpecImpl, PartialOrdSpecImpl};
use vstd::utf8::{decode_utf8, decode_utf8_encode_utf8, encode_utf8, encode_utf8_decode_utf8, encode_utf8_valid_utf8, valid_utf8};

verus! {

/// The outcome of checking `s` against the byte-length bounds `min..=max`:
/// `Ok(())` or the error the constructor reports. Length counts UTF-8 bytes.
pub open spec fn inline_check(s: Seq<char>, min: nat, max: nat) -> Result<(), PrimitiveError> {
    let actual = encode_utf8(s).len();
    if min > max {
        Err(PrimitiveError::OutOfRange { min: min as u128, max: max as u128, actual: actual as u128 })
    } else if actual < min {
        Err(PrimitiveError::TooShort { min: min as usize, actual: actual as usize })
    } else if actual > max {
        Err(PrimitiveError::TooLong { max: max as usize, actual: actual as usize })
    } else if min > 0 && all_ws(s) {
        Err(PrimitiveError::Empty)
    } else {
        Ok(())
    }
}

#[verifier::external_type_specification]
#[verifier::external_body]
pub struct ExUtf8Error(core::str::Utf8Error);

/// `core::str::from_utf8`: std documents that it succeeds exactly on valid
/// UTF-8, with a `str` whose bytes are the given ones.
#[verifier::external_body]
fn str_from_utf8(bytes: &[u8]) -> (r: Result<&str, core::str::Utf8Error>)
    ensures
        r is Ok <==> valid_utf8(bytes@),
        r matches Ok(s) ==> encode_utf8(s@) == bytes@,
{
    core::str::from_utf8(bytes)
}

/// A UTF-8 string of `MIN..=MAX` bytes stored inline in a `[u8; MAX]` buffer,
/// with no heap allocation; the value is `Copy`.
///
/// The bound counts bytes, since that is what the buffer holds: `"é"` takes
/// two. The unused tail of the buffer stays zero, so the derived order and
/// hash of the buffer and length agree with those of the text.
#[derive(Copy, Debug, Eq, Ord, Hash)]
pub struct InlineStr<const MIN: usize, const MAX: usize> {
    buf: [u8; MAX],
    len: usize,
}

impl<const MIN: usize, const MAX: usize> View for InlineStr<MIN, MAX> {
    type V = Seq<char>;

    closed spec fn view(&self) -> Seq<char> {
        decode_utf8(self.buf@.subrange(0, self.len as int))
    }
}

impl<const MIN: usize, const MAX: usize> InlineStr<MIN, MAX> {
    #[verifier::type_invariant]
    spec fn wf(self) -> bool {
        &&& self.len <= MAX
        &&& valid_utf8(self.buf@.subrange(0, self.len as int))
        &&& forall|i: int| self.len <= i < MAX ==> self.buf@[i] == 0
        &&& inline_check(self@, MIN as nat, MAX as nat) is Ok
    }

    proof fn lemma_bytes(self)
        requires
            self.wf(),
        ensures
            encode_utf8(self@) == self.buf@.subrange(0, self.len as int),
            self.len == encode_utf8(self@).len(),
    {
        decode_utf8_encode_utf8(self.buf@.subrange(0, self.len as int));
    }

    fn check(value: &str) -> (r: PrimitiveResult<()>)
        ensures
            r == inline_check(value@, MIN as nat, MAX as nat),
    {
        let actual = value.as_bytes().len();
        if MIN > MAX {
            return Err(
                PrimitiveError::OutOfRange {
                    min: MIN as u128,
                    max: MAX as u128,
                    actual: actual as u128,
                },
            );
        }
        if actual < MIN {
            return Err(PrimitiveError::TooShort { min: MIN, actual });
        }
        if actual > MAX {
            return Err(PrimitiveError::TooLong { max: MAX, actual });
        }
        if MIN > 0 && is_blank(value) {
            return Err(PrimitiveError::Empty);
        }
        Ok(())
    }

    /// Creates an inline string. Length is measured in UTF-8 bytes. With
    /// `MIN > MAX` every input is `OutOfRange`; with `MIN > 0` an input of
    /// whitespace alone is `Empty`, once its length fits.
    pub fn new(value: &str) -> (r: PrimitiveResult<InlineStr<MIN, MAX>>)
        ensures
            match (r, inline_check(value@, MIN as nat, MAX as nat)) {
                (Ok(v), Ok(())) => v@ == value@,
                (Err(e), Err(f)) => e == f,
                _ => false,
            },
    {
        match Self::check(value) {
            Err(e) => Err(e),
            Ok(()) => {
                let bytes = value.as_bytes();
                let actual = bytes.len();
                let mut buf = [0u8; MAX];
                let mut i: usize = 0;
                while i < actual
                    invariant
                        actual <= MAX,
                        bytes@.len() == actual,
                        buf@.len() == MAX,
                        i <= actual,
                        forall|j: int| 0 <= j < i ==> buf@[j] == bytes@[j],
                        forall|j: int| i <= j < MAX ==> buf@[j] == 0,
                    decreases actual - i,
                {
                    buf[i] = bytes[i];
                    i = i + 1;
                }
                proof {
                    assert(buf@.subrange(0, actual as int) =~= bytes@);
                    encode_utf8_valid_utf8(value@);
                    encode_utf8_decode_utf8(value@);
                }
                Ok(InlineStr { buf, len: actual })
            },
        }
    }

    /// Returns the string's bytes, without the unused buffer tail.
    pub fn as_bytes(&self) -> (b: &[u8])
        ensures
            b@ == encode_utf8(self@),
    {
        proof {
            use_type_invariant(self);
            self.lemma_bytes();
        }
        vstd::slice::slice_subrange(self.buf.as_slice(), 0, self.len)
    }

    /// Returns the string slice.
    pub fn as_str(&self) -> (s: &str)
        ensures
            s@ == self@,
    {
        proof {
            use_type_invariant(self);
            self.lemma_bytes();
        }
        let bytes = self.as_bytes();
        match str_from_utf8(bytes) {
            Ok(s) => {
                proof {
                    encode_utf8_decode_utf8(s@);
                    encode_utf8_decode_utf8(self@);
                }
                s
            },
            Err(_) => {
                proof {
                    encode_utf8_valid_utf8(self@);
                }
                ""
            },
        }
    }

    /// Returns the byte length.
    pub fn len(&self) -> (n: usize)
        ensures
            n == encode_utf8(self@).len(),
            MIN <= n <= MAX,
    {
        proof {
            use_type_invariant(self);
            self.lemma_bytes();
        }
        self.len
    }

    /// Returns whether the string is empty.
    pub fn is_empty(&self) -> (b: bool)
        ensures
            b == (self@.len() == 0),
    {
        proof {
            use_type_invariant(self);
            self.lemma_bytes();
            encode_utf8_decode_utf8(self@);
        }
        self.len == 0
    }

    /// Returns the minimum allowed byte length.
    pub fn min_len(&self) -> (n: usize)
        ensures
            n == MIN,
    {
        MIN
    }

    /// Returns the maximum byte length, the inline capacity.
    pub fn max_len(&self) -> (n: usize)
        ensures
            n == MAX,
    {
        MAX
    }

    /// Returns the text as an owned string.
    pub fn to_string(&self) -> (s: String)
        ensures
            s@ == self@,
    {
        self.as_str().to_owned()
    }

    /// The debug rendering: the text as a quoted string literal, as `str`'s
    /// `Debug` writes it.
    pub fn debug_string(&self) -> (s: String)
        ensures
            s@ == debug_quoted(self@),
    {
        quote(self.as_str())
    }
}

impl<const MIN: usize, const MAX: usize> Clone for InlineStr<MIN, MAX> {
    fn clone(&self) -> (c: InlineStr<MIN, MAX>)
        ensures
            c == *self,
    {
        *self
    }
}

impl<const MIN: usize, const MAX: usize> AsRef<str> for InlineStr<MIN, MAX> {
    fn as_ref(&self) -> (s: &str)
        ensures
            s@ == self@,
    {
        self.as_str()
    }
}

impl<const MIN: usize, const MAX: usize> core::ops::Deref for InlineStr<MIN, MAX> {
    type Target = str;

    fn deref(&self) -> (s: &str)
        ensures
            s@ == self@,
    {
        self.as_str()
    }
}

impl<const MIN: usize, const MAX: usize> PartialEq for InlineStr<MIN, MAX> {
    fn eq(&self, other: &InlineStr<MIN, MAX>) -> (r: bool) {
        str_eq(self.as_str(), other.as_str())
    }
}

impl<const MIN: usize, const MAX: usize> PartialEqSpecImpl for InlineStr<MIN, MAX> {
    open spec fn obeys_eq_spec() -> bool {
        true
    }

    open spec fn eq_spec(&self, other: &InlineStr<MIN, MAX>) -> bool {
        self@ == other@
    }
}

impl<const MIN: usize, const MAX: usize> PartialEq<str> for InlineStr<MIN, MAX> {
    fn eq(&self, other: &str) -> (r: bool) {
        str_eq(self.as_str(), other)
    }
}

impl<const MIN: usize, const MAX: usize> PartialEqSpecImpl<str> for InlineStr<MIN, MAX> {
    open spec fn obeys_eq_spec() -> bool {
        true
    }

    open spec fn eq_spec(&self, other: &str) -> bool {
        self@ == other@
    }
}

impl<'a, const MIN: usize, const MAX: usize> PartialEq<&'a str> for InlineStr<MIN, MAX> {
    fn eq(&self, other: &&'a str) -> (r: bool) {
        str_eq(self.as_str(), *other)
    }
}

impl<'a, const MIN: usize, const MAX: usize> PartialEqSpecImpl<&'a str> for InlineStr<MIN, MAX> {
    open spec fn obeys_eq_spec() -> bool {
        true
    }

    open spec fn eq_spec(&self, other: &&'a str) -> bool {
        self@ == (*other)@
    }
}

impl<const MIN: usize, const MAX: usize> PartialOrd for InlineStr<MIN, MAX> {
    fn partial_cmp(&self, other: &InlineStr<MIN, MAX>) -> (r: Option<Ordering>) {
        Some(to_ordering(lex_compare(self.as_str(), other.as_str())))
    }
}

impl<const MIN: usize, const MAX: usize> PartialOrdSpecImpl for InlineStr<MIN, MAX> {
    open spec fn obeys_partial_cmp_spec() -> bool {
        true
    }

    open spec fn partial_cmp_spec(&self, other: &InlineStr<MIN, MAX>) -> Option<Ordering> {
        Some(ordering_of(lex_rank(self@, other@)))
    }
}

impl<'a, const MIN: usize, const MAX: usize> TryFrom<&'a str> for InlineStr<MIN, MAX> {
    type Error = PrimitiveError;

    fn try_from(value: &'a str) -> (r: Result<InlineStr<MIN, MAX>, PrimitiveError>)
        ensures
            match (r, inline_check(value@, MIN as nat, MAX as nat)) {
                (Ok(v), Ok(())) => v@ == value@,
                (Err(e), Err(f)) => e == f,
                _ => false,
            },
    {
        Self::new(value)
    }
}

impl<'a, const MIN: usize, const MAX: usize> vstd::std_specs::convert::TryFromSpecImpl<&'a str> for InlineStr<MIN, MAX> {
    open spec fn obeys_try_from_spec() -> bool {
        false
    }

    closed spec fn try_from_spec(v: &'a str) -> Result<InlineStr<MIN, MAX>, PrimitiveError> {
        arbitrary()
    }
}

impl<const MIN: usize, const MAX: usize> core::str::FromStr for InlineStr<MIN, MAX> {
    type Err = PrimitiveError;

    fn from_str(s: &str) -> (r: Result<InlineStr<MIN, MAX>, PrimitiveError>)
        ensures
            match (r, inline_check(s@, MIN as nat, MAX as nat)) {
                (Ok(t), Ok(())) => t@ == s@,
                (Err(e), Err(f)) => e == f,
                _ => false,
            },
    {
        Self::new(s)
    }
}

} // verus!
