//! Three-way comparison and lexicographic order of character strings.

use vstd::prelude::*;

verus! {

/// The outcome of comparing two values.
#[derive(Debug, Clone, Copy, PartialEq, Eq, Structural)]
pub enum Rank {
    Less,
    Equal,
    Greater,
}

/// The outcome seen from the other side.
pub open spec fn flip(r: Rank) -> Rank {
    match r {
        Rank::Less => Rank::Greater,
        Rank::Equal => Rank::Equal,
        Rank::Greater => Rank::Less,
    }
}

/// Lexicographic comparison of `a` and `b` from position `i` on, character
/// by character, a proper prefix ranking lower.
pub open spec fn lex_from(a: Seq<char>, b: Seq<char>, i: int) -> Rank
    decreases a.len() - i,
{
    if i >= a.len() {
        if i >= b.len() {
            Rank::Equal
        } else {
            Rank::Less
        }
    } else if i >= b.len() {
        Rank::Greater
    } else if a[i] < b[i] {
        Rank::Less
    } else if b[i] < a[i] {
        Rank::Greater
    } else {
        lex_from(a, b, i + 1)
    }
}

/// Lexicographic comparison of two strings.
pub open spec fn lex_rank(a: Seq<char>, b: Seq<char>) -> Rank {
    lex_from(a, b, 0)
}

/// Compares two strings lexicographically, character by character.
pub fn lex_compare(a: &str, b: &str) -> (r: Rank)
    ensures
        r == lex_rank(a@, b@),
{
    let na = a.unicode_len();
    let nb = b.unicode_len();
    let mut i: usize = 0;
    while i < na && i < nb
        invariant
            na == a@.len(),
            nb == b@.len(),
            i <= na,
            i <= nb,
            lex_rank(a@, b@) == lex_from(a@, b@, i as int),
        decreases na - i,
    {
        let x = a.get_char(i);
        let y = b.get_char(i);
        if x < y {
            return Rank::Less;
        }
        if y < x {
            return Rank::Greater;
        }
        i = i + 1;
    }
    if i < nb {
        Rank::Less
    } else if i < na {
        Rank::Greater
    } else {
        Rank::Equal
    }
}

/// Comparing the other way round from the same position flips the outcome.
pub proof fn lemma_lex_flip(a: Seq<char>, b: Seq<char>, i: int)
    ensures
        lex_from(b, a, i) == flip(lex_from(a, b, i)),
    decreases a.len() - i,
{
    if i < a.len() && i < b.len() && a[i] == b[i] {
        lemma_lex_flip(a, b, i + 1);
    }
}

proof fn lemma_lex_equal(a: Seq<char>, b: Seq<char>, i: int)
    requires
        0 <= i <= a.len(),
        i <= b.len(),
        lex_from(a, b, i) == Rank::Equal,
    ensures
        a.len() == b.len(),
        forall|j: int| i <= j < a.len() ==> a[j] == b[j],
    decreases a.len() - i,
{
    if i < a.len() {
        lemma_lex_equal(a, b, i + 1);
    }
}

proof fn lemma_lex_same(a: Seq<char>, i: int)
    ensures
        lex_from(a, a, i) == Rank::Equal,
    decreases a.len() - i,
{
    if i < a.len() {
        lemma_lex_same(a, i + 1);
    }
}

/// Two strings compare equal exactly when they are the same.
pub proof fn lemma_lex_equal_iff(a: Seq<char>, b: Seq<char>)
    ensures
        (lex_rank(a, b) == Rank::Equal) == (a == b),
{
    if lex_rank(a, b) == Rank::Equal {
        lemma_lex_equal(a, b, 0);
        assert(a =~= b);
    }
    if a == b {
        lemma_lex_same(a, 0);
    }
}

/// Lexicographic order is transitive.
pub proof fn lemma_lex_trans(a: Seq<char>, b: Seq<char>, c: Seq<char>, i: int)
    requires
        lex_from(a, b, i) == Rank::Less,
        lex_from(b, c, i) == Rank::Less,
    ensures
        lex_from(a, c, i) == Rank::Less,
    decreases a.len() - i,
{
    if i < a.len() && i < b.len() && i < c.len() && a[i] == b[i] && b[i] == c[i] {
        lemma_lex_trans(a, b, c, i + 1);
    }
}

} // verus!
