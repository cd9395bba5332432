//! The `core::cmp::Ordering` that a three-way comparison stands for.

use crate::lex::Rank;
use core::cmp::Ordering;
use vstd::prelude::*;

verus! {

/// The `Ordering` that a rank stands for.
pub open spec fn ordering_of(r: Rank) -> Ordering {
    match r {
        Rank::Less => Ordering::Less,
        Rank::Equal => Ordering::Equal,
        Rank::Greater => Ordering::Greater,
    }
}

/// Converts a rank into the `Ordering` it stands for.
pub fn to_ordering(r: Rank) -> (o: Ordering)
    ensures
        o == ordering_of(r),
{
    match r {
        Rank::Less => Ordering::Less,
        Rank::Equal => Ordering::Equal,
        Rank::Greater => Ordering::Greater,
    }
}

} // verus!
