//! Resolving generated paths through an umbrella crate.

use crate::chars::str_eq;
use vstd::prelude::*;

verus! {

/// `s` with every occurrence of `pat`, scanned from the left without overlap,
/// replaced by `rep`.
pub open spec fn replace_all(s: Seq<char>, pat: Seq<char>, rep: Seq<char>) -> Seq<char>
    decreases s.len(),
{
    if pat.len() == 0 || s.len() < pat.len() {
        s
    } else if s.subrange(0, pat.len() as int) == pat {
        rep + replace_all(s.subrange(pat.len() as int, s.len() as int), pat, rep)
    } else {
        seq![s[0]] + replace_all(s.drop_first(), pat, rep)
    }
}

/// Replaces every occurrence of `pat` in `s` by `rep`, left to right.
fn replace_str(s: &str, pat: &str, rep: &str) -> (r: String)
    requires
        pat@.len() > 0,
    ensures
        r@ == replace_all(s@, pat@, rep@),
{
    let n = s.unicode_len();
    let m = pat.unicode_len();
    let mut out = String::new();
    let mut i: usize = 0;
    proof {
        assert(s@.subrange(0, n as int) =~= s@);
        assert(out@ + replace_all(s@, pat@, rep@) =~= replace_all(s@, pat@, rep@));
    }
    while i < n
        invariant
            n == s@.len(),
            m == pat@.len(),
            m > 0,
            i <= n,
            out@ + replace_all(s@.subrange(i as int, n as int), pat@, rep@) == replace_all(
                s@,
                pat@,
                rep@,
            ),
        decreases n - i,
    {
        let ghost rest = s@.subrange(i as int, n as int);
        if n - i < m {
            let tail = s.substring_char(i, n);
            proof {
                assert(replace_all(rest, pat@, rep@) == rest);
            }
            out.append(tail);
            proof {
                assert(s@.subrange(n as int, n as int) =~= Seq::<char>::empty());
                assert(replace_all(Seq::<char>::empty(), pat@, rep@) =~= Seq::<char>::empty());
            }
            i = n;
        } else if str_eq(s.substring_char(i, i + m), pat) {
            proof {
                assert(rest.subrange(0, m as int) =~= s@.subrange(i as int, i + m));
                assert(rest.subrange(m as int, rest.len() as int) =~= s@.subrange(i + m, n as int));
            }
            let ghost before = out@;
            out.append(rep);
            assert(out@ + replace_all(s@.subrange(i + m, n as int), pat@, rep@) =~= before
                + replace_all(rest, pat@, rep@));
            i = i + m;
        } else {
            proof {
                assert(rest.subrange(0, m as int) =~= s@.subrange(i as int, i + m));
                assert(rest.drop_first() =~= s@.subrange(i + 1, n as int));
            }
            let ghost before = out@;
            out.append(s.substring_char(i, i + 1));
            assert(out@ + replace_all(s@.subrange(i + 1, n as int), pat@, rep@) =~= before
                + replace_all(rest, pat@, rep@));
            i = i + 1;
        }
    }
    proof {
        assert(s@.subrange(n as int, n as int) =~= Seq::<char>::empty());
        assert(replace_all(Seq::<char>::empty(), pat@, rep@) =~= Seq::<char>::empty());
        assert(out@ =~= out@ + Seq::<char>::empty());
    }
    out
}

/// Generated code with its standalone crate paths resolved through the
/// umbrella crate `root`, if one is given.
pub open spec fn rooted(code: Seq<char>, root: Option<Seq<char>>) -> Seq<char> {
    match root {
        None => code,
        Some(r) => replace_all(
            replace_all(
                replace_all(code, "::reliakit_codec"@, "::"@ + r + "::codec"@),
                "::reliakit_csv"@,
                "::"@ + r + "::csv"@,
            ),
            "::reliakit_json"@,
            "::"@ + r + "::json"@,
        ),
    }
}

/// Rewrites the standalone crate prefixes in generated code to resolve through
/// an umbrella crate root; `None` leaves the code as it is.
pub fn with_crate_root(code: String, root: Option<&str>) -> (r: String)
    ensures
        r@ == rooted(
            code@,
            match root {
                Some(x) => Some(x@),
                None => None,
            },
        ),
{
    match root {
        None => code,
        Some(r) => {
            proof {
                reveal_strlit("::reliakit_codec");
                reveal_strlit("::reliakit_csv");
                reveal_strlit("::reliakit_json");
            }
            let mut codec = "::".to_owned();
            codec.append(r);
            codec.append("::codec");
            let mut csv = "::".to_owned();
            csv.append(r);
            csv.append("::csv");
            let mut json = "::".to_owned();
            json.append(r);
            json.append("::json");
            let a = replace_str(code.as_str(), "::reliakit_codec", codec.as_str());
            let b = replace_str(a.as_str(), "::reliakit_csv", csv.as_str());
            replace_str(b.as_str(), "::reliakit_json", json.as_str())
        },
    }
}

} // verus!
