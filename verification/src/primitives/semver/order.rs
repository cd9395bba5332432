//! Ordering of versions through `core::cmp::Ordering`.

use super::{precedence, version_rank, SemVer};
use crate::ordering::{ordering_of, to_ordering};
use core::cmp::Ordering;
use vstd::prelude::*;
use vstd::std_specs::cmp::PartialOrdSpecImpl;

verus! {

impl SemVer {
    /// Compares version precedence; build metadata takes no part.
    pub fn cmp_precedence(&self, other: &SemVer) -> (o: Ordering)
        ensures
            o == ordering_of(precedence(self@, other@)),
    {
        to_ordering(self.precedence_rank(other))
    }

    /// The total order of versions: precedence, then build metadata as the
    /// final tie-breaker, so that only equal versions compare equal.
    pub fn cmp(&self, other: &SemVer) -> (o: Ordering)
        ensures
            o == ordering_of(version_rank(self@, other@)),
    {
        to_ordering(self.version_rank(other))
    }
}

impl PartialOrd for SemVer {
    fn partial_cmp(&self, other: &SemVer) -> (r: Option<Ordering>) {
        Some(self.cmp(other))
    }
}

impl PartialOrdSpecImpl for SemVer {
    open spec fn obeys_partial_cmp_spec() -> bool {
        true
    }

    open spec fn partial_cmp_spec(&self, other: &SemVer) -> Option<Ordering> {
        Some(ordering_of(version_rank(self@, other@)))
    }
}

} // verus!
