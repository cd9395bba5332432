//! Concatenating the texts of the items of a sequence.

use vstd::prelude::*;

verus! {

/// The texts `piece(i, s[i])` for every position of `s`, one after the other.
pub open spec fn join<T>(s: Seq<T>, piece: spec_fn(int, T) -> Seq<char>) -> Seq<char>
    decreases s.len(),
{
    if s.len() == 0 {
        Seq::empty()
    } else {
        join(s.drop_last(), piece) + piece(s.len() - 1, s.last())
    }
}

/// The texts `piece(i)` for `i` in `0..n`, one after the other.
pub open spec fn join_range(n: nat, piece: spec_fn(int) -> Seq<char>) -> Seq<char>
    decreases n,
{
    if n == 0 {
        Seq::empty()
    } else {
        join_range((n - 1) as nat, piece) + piece(n - 1)
    }
}

/// Extending a prefix by one item appends that item's text.
pub proof fn lemma_join_step<T>(s: Seq<T>, i: int, piece: spec_fn(int, T) -> Seq<char>)
    requires
        0 <= i < s.len(),
    ensures
        join(s.subrange(0, i + 1), piece) == join(s.subrange(0, i), piece) + piece(i, s[i]),
{
    assert(s.subrange(0, i + 1).drop_last() =~= s.subrange(0, i));
}

/// The whole sequence is its own full-length prefix.
pub proof fn lemma_join_full<T>(s: Seq<T>, piece: spec_fn(int, T) -> Seq<char>)
    ensures
        join(s.subrange(0, s.len() as int), piece) == join(s, piece),
{
    assert(s.subrange(0, s.len() as int) =~= s);
}

/// Sequences whose items have the same texts, position by position, have
/// the same joined text.
pub proof fn lemma_join_congruent<A, B>(
    s1: Seq<A>,
    s2: Seq<B>,
    p1: spec_fn(int, A) -> Seq<char>,
    p2: spec_fn(int, B) -> Seq<char>,
)
    requires
        s1.len() == s2.len(),
        forall|i: int| 0 <= i < s1.len() ==> p1(i, s1[i]) == p2(i, s2[i]),
    ensures
        join(s1, p1) == join(s2, p2),
    decreases s1.len(),
{
    if s1.len() > 0 {
        lemma_join_congruent(s1.drop_last(), s2.drop_last(), p1, p2);
    }
}

} // verus!
