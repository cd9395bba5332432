//! Derive input as plain token trees, and its split on top-level commas.

use vstd::prelude::*;

verus! {

/// The delimiter of a token group.
#[derive(Debug, Clone, Copy, PartialEq, Eq, Structural)]
pub enum Delim {
    /// `( ... )`
    Parenthesis,
    /// `{ ... }`
    Brace,
    /// `[ ... ]`
    Bracket,
    /// An invisible delimiter.
    Invisible,
}

/// One token tree of a derive input.
#[derive(Debug)]
pub enum Tok {
    /// An identifier, as written.
    Ident(String),
    /// A punctuation character; `true` when it stands alone rather than
    /// joined to the next one.
    Punct(char, bool),
    /// A literal, as rendered (a string literal keeps its quotes).
    Literal(String),
    /// A delimited group and the tokens inside it.
    Group(Delim, Vec<Tok>),
}

/// Whether `t` is the punctuation character `c`.
pub open spec fn is_punct(t: Tok, c: char) -> bool {
    t matches Tok::Punct(x, _) && x == c
}

/// The segments of `s` from position `i` on, split at commas outside angle
/// brackets: `depth` counts the open `<` (a stray `>` at depth zero stays at
/// zero) and `start` is where the current segment began. A comma always ends
/// a segment, even an empty one; a final segment is kept only if not empty.
pub open spec fn seg_scan(s: Seq<Tok>, i: int, depth: nat, start: int) -> Seq<(int, int)>
    decreases s.len() - i,
{
    if i >= s.len() {
        if start < s.len() {
            seq![(start, s.len() as int)]
        } else {
            Seq::empty()
        }
    } else if is_punct(s[i], '<') {
        seg_scan(s, i + 1, depth + 1, start)
    } else if is_punct(s[i], '>') {
        seg_scan(s, i + 1, if depth > 0 { (depth - 1) as nat } else { 0 }, start)
    } else if is_punct(s[i], ',') && depth == 0 {
        seq![(start, i)] + seg_scan(s, i + 1, depth, i + 1)
    } else {
        seg_scan(s, i + 1, depth, start)
    }
}

/// The top-level segments of `s`, as ranges of positions.
pub open spec fn segments(s: Seq<Tok>) -> Seq<(int, int)> {
    seg_scan(s, 0, 0, 0)
}

/// The ranges `r`, given as `usize` pairs, are the ranges `m`.
pub open spec fn same_ranges(r: Seq<(usize, usize)>, m: Seq<(int, int)>) -> bool {
    &&& r.len() == m.len()
    &&& forall|k: int| 0 <= k < r.len() ==> (#[trigger] r[k]).0 == m[k].0 && r[k].1 == m[k].1
}

proof fn lemma_seg_scan_bounds(s: Seq<Tok>, i: int, depth: nat, start: int)
    requires
        0 <= start <= i <= s.len(),
    ensures
        forall|k: int|
            0 <= k < seg_scan(s, i, depth, start).len() ==> start <= (#[trigger] seg_scan(
                s,
                i,
                depth,
                start,
            )[k]).0 <= seg_scan(s, i, depth, start)[k].1 <= s.len(),
    decreases s.len() - i,
{
    let me = seg_scan(s, i, depth, start);
    if i < s.len() {
        let d2: nat = if is_punct(s[i], '<') {
            depth + 1
        } else if is_punct(s[i], '>') {
            if depth > 0 {
                (depth - 1) as nat
            } else {
                0
            }
        } else {
            depth
        };
        if is_punct(s[i], ',') && depth == 0 {
            lemma_seg_scan_bounds(s, i + 1, depth, i + 1);
            let r = seg_scan(s, i + 1, depth, i + 1);
            assert(me == seq![(start, i)] + r);
            assert forall|k: int| 0 <= k < me.len() implies start <= (#[trigger] me[k]).0 <= me[k].1
                <= s.len() by {
                if k > 0 {
                    assert(me[k] == r[k - 1]);
                }
            }
        } else {
            lemma_seg_scan_bounds(s, i + 1, d2, start);
            assert(me == seg_scan(s, i + 1, d2, start));
        }
    } else {
        if start < s.len() {
            assert(me == seq![(start, s.len() as int)]);
        }
    }
}

/// Every segment is a range within `s`.
pub proof fn lemma_segments_bounds(s: Seq<Tok>)
    ensures
        forall|k: int|
            0 <= k < segments(s).len() ==> 0 <= (#[trigger] segments(s)[k]).0 <= segments(s)[k].1
                <= s.len(),
{
    lemma_seg_scan_bounds(s, 0, 0, 0);
}

fn punct_is(t: &Tok, c: char) -> (b: bool)
    ensures
        b == is_punct(*t, c),
{
    match t {
        Tok::Punct(x, _) => *x == c,
        _ => false,
    }
}

/// Splits a token stream on top-level commas, dropping the commas: angle
/// brackets are plain punctuation, so their depth is tracked to keep the
/// comma of `Result<T, E>` inside its segment. A stray `>` saturates at zero.
pub fn top_level_segments(stream: &[Tok]) -> (r: Vec<(usize, usize)>)
    ensures
        same_ranges(r@, segments(stream@)),
{
    let n = stream.len();
    let mut out: Vec<(usize, usize)> = Vec::new();
    let mut depth: usize = 0;
    let mut start: usize = 0;
    let mut i: usize = 0;
    let ghost mut done: Seq<(int, int)> = Seq::empty();
    while i < n
        invariant
            n == stream@.len(),
            start <= i <= n,
            depth <= i,
            same_ranges(out@, done),
            done + seg_scan(stream@, i as int, depth as nat, start as int) == segments(stream@),
        decreases n - i,
    {
        let t = &stream[i];
        if punct_is(t, '<') {
            depth = depth + 1;
        } else if punct_is(t, '>') {
            if depth > 0 {
                depth = depth - 1;
            }
        } else if punct_is(t, ',') && depth == 0 {
            out.push((start, i));
            proof {
                let p = (start as int, i as int);
                assert(seq![p] + seg_scan(stream@, i + 1, depth as nat, i + 1) == seg_scan(
                    stream@,
                    i as int,
                    depth as nat,
                    start as int,
                ));
                assert(done.push(p) + seg_scan(stream@, i + 1, depth as nat, i + 1) =~= done + (
                seq![p] + seg_scan(stream@, i + 1, depth as nat, i + 1)));
                done = done.push(p);
            }
            start = i + 1;
        }
        i = i + 1;
    }
    if start < n {
        out.push((start, n));
        proof {
            let p = (start as int, n as int);
            assert(done.push(p) =~= done + seq![p]);
            done = done.push(p);
        }
    } else {
        proof {
            assert(done =~= done + Seq::<(int, int)>::empty());
        }
    }
    out
}

/// The number of segments that are not empty.
pub open spec fn nonempty_count(r: Seq<(int, int)>) -> nat
    decreases r.len(),
{
    if r.len() == 0 {
        0
    } else {
        nonempty_count(r.drop_last()) + if r.last().0 < r.last().1 {
            1nat
        } else {
            0nat
        }
    }
}

/// Counts the fields of a tuple body: its non-empty top-level segments.
pub fn count_fields(stream: &[Tok]) -> (n: usize)
    ensures
        n == nonempty_count(segments(stream@)),
{
    let segs = top_level_segments(stream);
    let ghost m = segments(stream@);
    let mut count: usize = 0;
    let mut k: usize = 0;
    while k < segs.len()
        invariant
            same_ranges(segs@, m),
            k <= segs@.len(),
            count <= k,
            count == nonempty_count(m.subrange(0, k as int)),
        decreases segs@.len() - k,
    {
        proof {
            assert(m.subrange(0, k + 1).drop_last() =~= m.subrange(0, k as int));
        }
        let (a, b) = segs[k];
        if a < b {
            count = count + 1;
        }
        k = k + 1;
    }
    proof {
        assert(m.subrange(0, m.len() as int) =~= m);
    }
    count
}

} // verus!
