//! Owned vectors guaranteed to hold at least one element.

use crate::primitives::error::{PrimitiveError, PrimitiveResult};
use vstd::prelude::*;

verus! {

/// Owned vector guaranteed to contain at least one element.
#[derive(Debug, PartialEq, Eq, Hash)]
pub struct NonEmptyVec<T>(Vec<T>);

impl<T> View for NonEmptyVec<T> {
    type V = Seq<T>;

    closed spec fn view(&self) -> Seq<T> {
        self.0@
    }
}

impl<T> NonEmptyVec<T> {
    /// The vector holds at least one element; every constructor establishes it
    /// and every method keeps it.
    pub open spec fn wf(&self) -> bool {
        self@.len() > 0
    }

    /// Creates a `NonEmptyVec`; an empty vector is rejected with `Empty`.
    pub fn new(vec: Vec<T>) -> (r: PrimitiveResult<NonEmptyVec<T>>)
        ensures
            vec@.len() == 0 ==> r == Err::<NonEmptyVec<T>, PrimitiveError>(PrimitiveError::Empty),
            vec@.len() > 0 ==> (r matches Ok(v) && v@ == vec@ && v.wf()),
    {
        if vec.is_empty() {
            return Err(PrimitiveError::Empty);
        }
        Ok(NonEmptyVec(vec))
    }

    /// Creates a `NonEmptyVec` holding a single item.
    pub fn from_one(item: T) -> (v: NonEmptyVec<T>)
        ensures
            v@ == seq![item],
            v.wf(),
    {
        let mut inner = Vec::new();
        inner.push(item);
        NonEmptyVec(inner)
    }

    /// Returns the number of elements, which is at least one.
    pub fn len(&self) -> (n: usize)
        requires
            self.wf(),
        ensures
            n == self@.len(),
            n >= 1,
    {
        self.0.len()
    }

    /// Always returns `false`.
    pub fn is_empty(&self) -> (b: bool)
        requires
            self.wf(),
        ensures
            !b,
            self@.len() > 0,
    {
        false
    }

    /// Returns the first element.
    pub fn first(&self) -> (x: &T)
        requires
            self.wf(),
        ensures
            *x == self@[0],
    {
        &self.0[0]
    }

    /// Returns the last element.
    pub fn last(&self) -> (x: &T)
        requires
            self.wf(),
        ensures
            *x == self@.last(),
    {
        &self.0[self.0.len() - 1]
    }

    /// Appends an element to the end.
    pub fn push(&mut self, item: T)
        requires
            old(self).wf(),
        ensures
            final(self)@ == old(self)@.push(item),
            final(self).wf(),
    {
        self.0.push(item);
    }

    /// Returns the elements as a slice.
    pub fn as_slice(&self) -> (s: &[T])
        ensures
            s@ == self@,
    {
        self.0.as_slice()
    }

    /// Consumes the wrapper and returns the inner vector.
    pub fn into_inner(self) -> (v: Vec<T>)
        ensures
            v@ == self@,
    {
        self.0
    }

    /// Returns an iterator over the elements, in order.
    pub fn iter(&self) -> (it: core::slice::Iter<'_, T>)
        ensures
            vstd::std_specs::slice::into_iter_elts(it) == self@,
    {
        broadcast use vstd::std_specs::slice::axiom_spec_slice_iter;

        self.0.as_slice().iter()
    }
}

impl<T: Clone> Clone for NonEmptyVec<T> {
    fn clone(&self) -> (c: NonEmptyVec<T>)
        ensures
            c@.len() == self@.len(),
            self.wf() ==> c.wf(),
            forall|i: int| 0 <= i < self@.len() ==> cloned::<T>(self@[i], #[trigger] c@[i]),
    {
        NonEmptyVec(self.0.clone())
    }
}

impl<T> core::ops::Deref for NonEmptyVec<T> {
    type Target = [T];

    fn deref(&self) -> (s: &[T])
        ensures
            s@ == self@,
    {
        self.as_slice()
    }
}

impl<T> TryFrom<Vec<T>> for NonEmptyVec<T> {
    type Error = PrimitiveError;

    fn try_from(vec: Vec<T>) -> (r: Result<NonEmptyVec<T>, PrimitiveError>) {
        if vec.is_empty() {
            return Err(PrimitiveError::Empty);
        }
        Ok(NonEmptyVec(vec))
    }
}

impl<T> vstd::std_specs::convert::TryFromSpecImpl<Vec<T>> for NonEmptyVec<T> {
    open spec fn obeys_try_from_spec() -> bool {
        true
    }

    closed spec fn try_from_spec(v: Vec<T>) -> Result<NonEmptyVec<T>, PrimitiveError> {
        if v@.len() == 0 {
            Err(PrimitiveError::Empty)
        } else {
            Ok(NonEmptyVec(v))
        }
    }
}

impl<T> From<NonEmptyVec<T>> for Vec<T> {
    fn from(value: NonEmptyVec<T>) -> (r: Vec<T>)
        ensures
            r@ == value@,
    {
        value.into_inner()
    }
}

impl<T> vstd::std_specs::convert::FromSpecImpl<NonEmptyVec<T>> for Vec<T> {
    open spec fn obeys_from_spec() -> bool {
        false
    }

    closed spec fn from_spec(v: NonEmptyVec<T>) -> Vec<T> {
        arbitrary()
    }
}

} // verus!
