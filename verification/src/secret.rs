//! Values that redact themselves in text output; access to them is explicit.

use vstd::prelude::*;
use vstd::utf8::encode_utf8;

verus! {

/// The text that stands for a secret in output.
pub const REDACTED: &'static str = "[REDACTED]";

/// Explicit access to a wrapped secret value.
pub trait ExposeSecret<T: ?Sized> {
    /// Returns a shared reference to the wrapped secret value.
    fn expose_secret(&self) -> &T;
}

/// Mutable access to a wrapped secret value.
pub trait ExposeSecretMut<T: ?Sized>: ExposeSecret<T> {
    /// Returns a mutable reference to the wrapped secret value.
    fn expose_secret_mut(&mut self) -> &mut T;
}

/// Values that can be read as a slice of bytes.
pub trait AsBytes {
    /// The bytes of the value.
    spec fn bytes_of(&self) -> Seq<u8>;

    /// Returns the bytes of the value.
    fn byte_slice(&self) -> (b: &[u8])
        ensures
            b@ == self.bytes_of(),
    ;
}

impl AsBytes for str {
    open spec fn bytes_of(&self) -> Seq<u8> {
        encode_utf8(self@)
    }

    fn byte_slice(&self) -> (b: &[u8]) {
        self.as_bytes()
    }
}

impl AsBytes for String {
    open spec fn bytes_of(&self) -> Seq<u8> {
        encode_utf8(self@)
    }

    fn byte_slice(&self) -> (b: &[u8]) {
        self.as_str().as_bytes()
    }
}

impl AsBytes for [u8] {
    open spec fn bytes_of(&self) -> Seq<u8> {
        self@
    }

    fn byte_slice(&self) -> (b: &[u8]) {
        self
    }
}

impl<const N: usize> AsBytes for [u8; N] {
    open spec fn bytes_of(&self) -> Seq<u8> {
        self@
    }

    fn byte_slice(&self) -> (b: &[u8]) {
        self.as_slice()
    }
}

impl AsBytes for Vec<u8> {
    open spec fn bytes_of(&self) -> Seq<u8> {
        self@
    }

    fn byte_slice(&self) -> (b: &[u8]) {
        self.as_slice()
    }
}

impl<'a, T: AsBytes + ?Sized> AsBytes for &'a T {
    open spec fn bytes_of(&self) -> Seq<u8> {
        (**self).bytes_of()
    }

    fn byte_slice(&self) -> (b: &[u8]) {
        (**self).byte_slice()
    }
}

/// `core::hint::black_box`: std documents it as the identity function, an
/// opaque hint that keeps the optimizer from reasoning about the value.
#[verifier::external_body]
fn black_box_u8(x: u8) -> (r: u8)
    ensures
        r == x,
{
    core::hint::black_box(x)
}

proof fn lemma_diff_step(d: u8, x: u8, y: u8)
    by (bit_vector)
    ensures
        ((d | (x ^ y)) == 0) == (d == 0 && x == y),
{
}

/// A value that never shows itself in text output; it is reached through
/// [`ExposeSecret::expose_secret`] or [`Secret::into_inner`].
pub struct Secret<T> {
    inner: T,
}

impl<T> View for Secret<T> {
    type V = T;

    closed spec fn view(&self) -> T {
        self.inner
    }
}

/// A secret held as an owned string.
pub type SecretString = Secret<String>;

impl<T> Secret<T> {
    /// Wraps a value as a secret.
    pub fn new(inner: T) -> (s: Secret<T>)
        ensures
            s@ == inner,
    {
        Secret { inner }
    }

    /// Consumes the wrapper and returns the inner value.
    pub fn into_inner(self) -> (v: T)
        ensures
            v == self@,
    {
        self.inner
    }

    /// Maps the secret value into another secret value.
    pub fn map<U, F: FnOnce(T) -> U>(self, f: F) -> (r: Secret<U>)
        requires
            f.requires((self@,)),
        ensures
            f.ensures((self@,), r@),
    {
        Secret::new(f(self.inner))
    }

    /// The text a secret shows in output: always `[REDACTED]`.
    pub fn to_string(&self) -> (s: String)
        ensures
            s@ == REDACTED@,
    {
        REDACTED.to_owned()
    }

    /// The debug rendering of a secret: always `Secret([REDACTED])`.
    pub fn debug_string(&self) -> (s: String)
        ensures
            s@ == "Secret("@ + REDACTED@ + ")"@,
    {
        let mut s = "Secret(".to_owned();
        s.append(REDACTED);
        s.append(")");
        s
    }
}

impl<T: AsBytes> Secret<T> {
    /// Compares the secret's bytes with `other`'s, inspecting every byte so
    /// that the time taken does not depend on how many leading bytes match.
    /// Inputs of different lengths compare unequal at once.
    pub fn ct_eq<U: AsBytes>(&self, other: U) -> (r: bool)
        ensures
            r == (self@.bytes_of() == other.bytes_of()),
    {
        let a = self.inner.byte_slice();
        let b = other.byte_slice();
        if a.len() != b.len() {
            return false;
        }
        let mut diff: u8 = 0;
        let mut i: usize = 0;
        while i < a.len()
            invariant
                a@.len() == b@.len(),
                i <= a@.len(),
                (diff == 0) == (forall|j: int| 0 <= j < i ==> a@[j] == b@[j]),
            decreases a@.len() - i,
        {
            proof {
                lemma_diff_step(diff, a@[i as int], b@[i as int]);
            }
            diff = diff | (a[i] ^ b[i]);
            i = i + 1;
        }
        proof {
            if diff == 0 {
                assert(a@ =~= b@);
            }
        }
        black_box_u8(diff) == 0
    }
}

impl Secret<String> {
    /// Creates a string-backed secret.
    pub fn from_string(value: &str) -> (s: SecretString)
        ensures
            s@@ == value@,
    {
        Secret::new(value.to_owned())
    }

    /// Returns the secret as `str`.
    pub fn expose_str(&self) -> (s: &str)
        ensures
            s@ == self@@,
    {
        self.inner.as_str()
    }
}

impl<T> ExposeSecret<T> for Secret<T> {
    fn expose_secret(&self) -> (r: &T)
        ensures
            *r == self@,
    {
        &self.inner
    }
}

impl<T> ExposeSecretMut<T> for Secret<T> {
    fn expose_secret_mut(&mut self) -> (r: &mut T)
        ensures
            *r == old(self)@,
            final(self)@ == *final(r),
    {
        &mut self.inner
    }
}

impl<T: Clone> Clone for Secret<T> {
    fn clone(&self) -> (c: Secret<T>)
        ensures
            cloned(self@, c@),
    {
        Secret::new(self.inner.clone())
    }
}

impl<T: Default> Default for Secret<T> {
    fn default() -> (s: Secret<T>)
        ensures
            call_ensures(T::default, (), s@),
    {
        Secret::new(T::default())
    }
}

impl<T> From<T> for Secret<T> {
    fn from(value: T) -> (s: Secret<T>)
        ensures
            s@ == value,
    {
        Secret::new(value)
    }
}

impl<T> vstd::std_specs::convert::FromSpecImpl<T> for Secret<T> {
    open spec fn obeys_from_spec() -> bool {
        true
    }

    closed spec fn from_spec(v: T) -> Secret<T> {
        Secret { inner: v }
    }
}

} // verus!
