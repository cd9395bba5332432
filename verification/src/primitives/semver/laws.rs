//! What holds of the order of versions.

use super::{
    all_digits, component_check, core_parse, ident_check, ident_head, ident_rank, ident_rest, part, pre_parse,
    pre_rank, precedence, semver_parse, semver_text, version_rank, SemVerModel,
};
use crate::chars::{digits_number, find, is_digit};
use crate::decimal::{decimal, digit_char};
use crate::lex::{flip, lemma_lex_equal_iff, lemma_lex_flip, lemma_lex_trans, lex_rank, Rank};
use crate::chars::lemma_find;
use crate::primitives::error::PrimitiveError;
use vstd::prelude::*;

verus! {






proof fn lemma_ident_flip(x: Seq<char>, y: Seq<char>)
    ensures
        ident_rank(y, x) == flip(ident_rank(x, y)),
{
    lemma_lex_flip(x, y, 0);
}

proof fn lemma_ident_equal_iff(x: Seq<char>, y: Seq<char>)
    ensures
        (ident_rank(x, y) == Rank::Equal) == (x == y),
{
    lemma_lex_equal_iff(x, y);
}

proof fn lemma_ident_trans(x: Seq<char>, y: Seq<char>, z: Seq<char>)
    requires
        ident_rank(x, y) == Rank::Less,
        ident_rank(y, z) == Rank::Less,
    ensures
        ident_rank(x, z) == Rank::Less,
{
    if all_digits(x) && all_digits(y) && all_digits(z) && x.len() == y.len() && y.len()
        == z.len() {
        lemma_lex_trans(x, y, z, 0);
    }
    if !all_digits(x) && !all_digits(y) && !all_digits(z) {
        lemma_lex_trans(x, y, z, 0);
    }
}

proof fn lemma_split(s: Seq<char>)
    ensures
        match ident_rest(s) {
            Some(r) => s == ident_head(s) + seq!['.'] + r,
            None => s == ident_head(s),
        },
{
    lemma_find(s, '.');
    match ident_rest(s) {
        Some(r) => {
            assert(s =~= ident_head(s) + seq!['.'] + r);
        },
        None => {
            assert(s =~= ident_head(s));
        },
    }
}

proof fn lemma_pre_flip(a: Seq<char>, b: Seq<char>)
    ensures
        pre_rank(b, a) == flip(pre_rank(a, b)),
    decreases a.len(),
{
    lemma_ident_flip(ident_head(a), ident_head(b));
    if let (Some(x), Some(y)) = (ident_rest(a), ident_rest(b)) {
        lemma_find(a, '.');
        lemma_pre_flip(x, y);
    }
}

proof fn lemma_pre_equal_iff(a: Seq<char>, b: Seq<char>)
    ensures
        (pre_rank(a, b) == Rank::Equal) == (a == b),
    decreases a.len(),
{
    lemma_ident_equal_iff(ident_head(a), ident_head(b));
    lemma_split(a);
    lemma_split(b);
    if let (Some(x), Some(y)) = (ident_rest(a), ident_rest(b)) {
        lemma_find(a, '.');
        lemma_pre_equal_iff(x, y);
    }
}

proof fn lemma_pre_trans(a: Seq<char>, b: Seq<char>, c: Seq<char>)
    requires
        pre_rank(a, b) == Rank::Less,
        pre_rank(b, c) == Rank::Less,
    ensures
        pre_rank(a, c) == Rank::Less,
    decreases a.len(),
{
    let (ha, hb, hc) = (ident_head(a), ident_head(b), ident_head(c));
    lemma_ident_equal_iff(ha, hb);
    lemma_ident_equal_iff(hb, hc);
    lemma_ident_equal_iff(ha, hc);
    if ident_rank(ha, hb) == Rank::Less && ident_rank(hb, hc) == Rank::Less {
        lemma_ident_trans(ha, hb, hc);
    }
    if let (Some(x), Some(y), Some(z)) = (ident_rest(a), ident_rest(b), ident_rest(c)) {
        if ha == hb && hb == hc {
            lemma_find(a, '.');
            lemma_pre_equal_iff(x, y);
            lemma_pre_equal_iff(y, z);
            if pre_rank(x, y) == Rank::Less && pre_rank(y, z) == Rank::Less {
                lemma_pre_trans(x, y, z);
            }
        }
    }
}

/// Comparing two versions the other way round gives the opposite outcome,
/// both for precedence and for the total order.
pub proof fn law_order_antisymmetric(a: SemVerModel, b: SemVerModel)
    ensures
        precedence(b, a) == flip(precedence(a, b)),
        version_rank(b, a) == flip(version_rank(a, b)),
{
    if let (Some(x), Some(y)) = (a.pre, b.pre) {
        lemma_pre_flip(x, y);
    }
    if let (Some(x), Some(y)) = (a.build, b.build) {
        lemma_lex_flip(x, y, 0);
    }
}

/// Two versions are equal in the total order exactly when they are the same
/// version, build metadata included.
pub proof fn law_order_consistent_with_eq(a: SemVerModel, b: SemVerModel)
    ensures
        (version_rank(a, b) == Rank::Equal) == (a == b),
{
    if let (Some(x), Some(y)) = (a.pre, b.pre) {
        lemma_pre_equal_iff(x, y);
    }
    if let (Some(x), Some(y)) = (a.build, b.build) {
        lemma_lex_equal_iff(x, y);
    }
}

/// Versions that differ in build metadata alone have equal precedence.
pub proof fn law_precedence_ignores_build(a: SemVerModel, b: SemVerModel)
    requires
        a.major == b.major,
        a.minor == b.minor,
        a.patch == b.patch,
        a.pre == b.pre,
    ensures
        precedence(a, b) == Rank::Equal,
{
    if let Some(x) = a.pre {
        lemma_pre_equal_iff(x, x);
    }
}

/// A pre-release ranks below the release of the same core version.
pub proof fn law_pre_release_below_release(a: SemVerModel, b: SemVerModel)
    requires
        a.major == b.major,
        a.minor == b.minor,
        a.patch == b.patch,
        a.pre is Some,
        b.pre is None,
    ensures
        precedence(a, b) == Rank::Less,
        version_rank(a, b) == Rank::Less,
{
}

/// Precedence is transitive.
pub proof fn law_precedence_transitive(a: SemVerModel, b: SemVerModel, c: SemVerModel)
    requires
        precedence(a, b) == Rank::Less,
        precedence(b, c) == Rank::Less,
    ensures
        precedence(a, c) == Rank::Less,
{
    if let (Some(x), Some(y), Some(z)) = (a.pre, b.pre, c.pre) {
        lemma_pre_equal_iff(x, y);
        lemma_pre_equal_iff(y, z);
        if pre_rank(x, y) == Rank::Less && pre_rank(y, z) == Rank::Less {
            lemma_pre_trans(x, y, z);
        }
    }
}

/// The total order is transitive.
pub proof fn law_order_transitive(a: SemVerModel, b: SemVerModel, c: SemVerModel)
    requires
        version_rank(a, b) == Rank::Less,
        version_rank(b, c) == Rank::Less,
    ensures
        version_rank(a, c) == Rank::Less,
{
    if let (Some(x), Some(y)) = (a.pre, b.pre) {
        lemma_pre_equal_iff(x, y);
    }
    if let (Some(y), Some(z)) = (b.pre, c.pre) {
        lemma_pre_equal_iff(y, z);
    }
    if let (Some(x), Some(z)) = (a.pre, c.pre) {
        lemma_pre_equal_iff(x, z);
    }
    if precedence(a, b) == Rank::Less && precedence(b, c) == Rank::Less {
        law_precedence_transitive(a, b, c);
    }
    if let (Some(x), Some(y), Some(z)) = (a.build, b.build, c.build) {
        lemma_lex_equal_iff(x, y);
        lemma_lex_equal_iff(y, z);
        if lex_rank(x, y) == Rank::Less && lex_rank(y, z) == Rank::Less {
            lemma_lex_trans(x, y, z, 0);
        }
    }
}

proof fn lemma_digit_round_trip(c: char)
    requires
        is_digit(c),
    ensures
        (c as u32 - '0' as u32) < 10,
        digit_char((c as u32 - '0' as u32) as nat) == c,
{
}

proof fn lemma_digits_positive(d: Seq<char>)
    requires
        d.len() > 0,
        all_digits(d),
        d[0] != '0',
    ensures
        digits_number(d) >= 1,
    decreases d.len(),
{
    if d.len() > 1 {
        lemma_digits_positive(d.drop_last());
    }
}

proof fn lemma_decimal_of_digits(d: Seq<char>)
    requires
        d.len() > 0,
        all_digits(d),
        !(d.len() > 1 && d[0] == '0'),
    ensures
        decimal(digits_number(d)) == d,
    decreases d.len(),
{
    let c = d.last();
    assert(is_digit(d[d.len() - 1]));
    lemma_digit_round_trip(c);
    let v = (c as u32 - '0' as u32) as nat;
    let n = digits_number(d);
    if d.len() == 1 {
        assert(d.drop_last() =~= Seq::<char>::empty());
        assert(digits_number(d) == digits_number(d.drop_last()) * 10 + v);
        assert(n == v);
        assert(decimal(n) =~= d);
    } else {
        let p = d.drop_last();
        assert(p[0] == d[0]);
        lemma_decimal_of_digits(p);
        lemma_digits_positive(p);
        let m = digits_number(p);
        assert(n == m * 10 + v);
        assert(n / 10 == m && n % 10 == v);
        assert(n >= 10);
        assert(decimal(n) == decimal(m).push(digit_char(v)));
        assert(decimal(n) =~= d);
    }
}

proof fn lemma_component_text(c: Option<Seq<char>>)
    requires
        component_check(c) is Ok,
    ensures
        c matches Some(x) && decimal(component_check(c)->Ok_0 as nat) == x,
{
    let x = c->Some_0;
    lemma_decimal_of_digits(x);
}

proof fn lemma_split_at(s: Seq<char>, c: char)
    requires
        find(s, c) < s.len(),
    ensures
        s == s.subrange(0, find(s, c) as int) + seq![c] + s.subrange(find(s, c) + 1int, s.len() as int),
{
    crate::chars::lemma_find(s, c);
    assert(s =~= s.subrange(0, find(s, c) as int) + seq![c] + s.subrange(find(s, c) + 1int, s.len() as int));
}

proof fn lemma_core_text(s: Seq<char>, pre: Option<Seq<char>>, build: Option<Seq<char>>)
    requires
        core_parse(s, pre, build) is Ok,
    ensures
        ({
            let m = core_parse(s, pre, build)->Ok_0;
            &&& m.pre == pre
            &&& m.build == build
            &&& decimal(m.major as nat) + seq!['.'] + decimal(m.minor as nat) + seq!['.'] + decimal(
                m.patch as nat,
            ) == s
        }),
{
    lemma_component_text(part(s, 0));
    lemma_component_text(part(s, 1));
    lemma_component_text(part(s, 2));
    let k0 = find(s, '.');
    assert(part(s, 1) is Some);
    assert(k0 < s.len());
    let r1 = s.subrange(k0 + 1int, s.len() as int);
    assert(part(s, 1) == part(r1, 0));
    assert(part(s, 2) == part(r1, 1));
    assert(part(s, 3) == part(r1, 2));
    let k1 = find(r1, '.');
    assert(part(r1, 1) is Some);
    assert(k1 < r1.len());
    let r2 = r1.subrange(k1 + 1int, r1.len() as int);
    assert(part(r1, 1) == part(r2, 0));
    assert(part(r1, 2) == part(r2, 1));
    let k2 = find(r2, '.');
    assert(k2 >= r2.len()) by {
        if k2 < r2.len() {
            assert(part(r2, 1) == part(r2.subrange(k2 + 1int, r2.len() as int), 0));
        }
    }
    crate::chars::lemma_find(r2, '.');
    assert(r2.subrange(0, k2 as int) =~= r2);
    lemma_split_at(s, '.');
    lemma_split_at(r1, '.');
    assert(part(s, 0) == Some(s.subrange(0, k0 as int)));
    assert(part(s, 1) == Some(r1.subrange(0, k1 as int)));
    assert(part(s, 2) == Some(r2));
    let m = core_parse(s, pre, build)->Ok_0;
    assert(decimal(m.major as nat) + seq!['.'] + decimal(m.minor as nat) + seq!['.'] + decimal(
        m.patch as nat,
    ) =~= s);
}

proof fn lemma_pre_text(s: Seq<char>, build: Option<Seq<char>>)
    requires
        pre_parse(s, build) is Ok,
    ensures
        ({
            let m = pre_parse(s, build)->Ok_0;
            &&& m.build == build
            &&& semver_text(SemVerModel { build: None, ..m }) == s
        }),
{
    let k = find(s, '-');
    if k < s.len() {
        let p = s.subrange(k + 1int, s.len() as int);
        lemma_core_text(s.subrange(0, k as int), Some(p), build);
        lemma_split_at(s, '-');
        let m = pre_parse(s, build)->Ok_0;
        assert(semver_text(SemVerModel { build: None, ..m }) =~= s);
    } else {
        lemma_core_text(s, None, build);
        let m = pre_parse(s, build)->Ok_0;
        assert(semver_text(SemVerModel { build: None, ..m }) =~= s);
    }
}

/// Writing a parsed version gives back the text it was parsed from.
pub proof fn law_text_round_trip(s: Seq<char>)
    requires
        semver_parse(s) is Ok,
    ensures
        semver_text(semver_parse(s)->Ok_0) == s,
{
    let k = find(s, '+');
    if k < s.len() {
        let b = s.subrange(k + 1int, s.len() as int);
        let t = s.subrange(0, k as int);
        lemma_pre_text(t, Some(b));
        lemma_split_at(s, '+');
        let m = semver_parse(s)->Ok_0;
        assert(semver_text(m) =~= semver_text(SemVerModel { build: None, ..m }) + seq!['+'] + b);
    } else {
        lemma_pre_text(s, None);
        let m = semver_parse(s)->Ok_0;
        assert(m == SemVerModel { build: None, ..m });
    }
}

/// An identifier made only of ASCII letters (either case), digits and
/// hyphens is accepted, unless it is a numeric pre-release identifier with a
/// leading zero; one holding any other character is refused.
pub proof fn law_ident_accepts_alphanumerics(id: Seq<char>, pre: bool)
    requires
        id.len() > 0,
    ensures
        (forall|i: int|
            0 <= i < id.len() ==> ('a' <= #[trigger] id[i] <= 'z' || 'A' <= id[i] <= 'Z' || '0'
                <= id[i] <= '9' || id[i] == '-')) && !(pre && id.len() > 1 && id[0] == '0' && (
        forall|i: int| 0 <= i < id.len() ==> '0' <= #[trigger] id[i] <= '9')) ==> ident_check(
            id,
            pre,
        ) == Ok::<(), PrimitiveError>(()),
        (exists|i: int|
            0 <= i < id.len() && !('a' <= #[trigger] id[i] <= 'z' || 'A' <= id[i] <= 'Z' || '0'
                <= id[i] <= '9' || id[i] == '-')) ==> ident_check(id, pre) is Err,
{
}

/// `s` is dot-separated identifiers of ASCII letters (either case), digits
/// and hyphens, none empty; for a pre-release, no identifier longer than one
/// character starts with `0`.
pub open spec fn plain_identifiers(s: Seq<char>, pre: bool) -> bool {
    &&& s.len() > 0
    &&& s[0] != '.'
    &&& s[s.len() - 1] != '.'
    &&& forall|i: int|
        0 <= i < s.len() ==> ('a' <= #[trigger] s[i] <= 'z' || 'A' <= s[i] <= 'Z' || '0' <= s[i]
            <= '9' || s[i] == '-' || s[i] == '.')
    &&& forall|i: int| 0 < i < s.len() ==> !(#[trigger] s[i] == '.' && s[i - 1] == '.')
    &&& pre ==> forall|i: int|
        0 <= i < s.len() && #[trigger] s[i] == '0' && (i == 0 || s[i - 1] == '.') ==> (i + 1
            == s.len() || s[i + 1] == '.')
}

proof fn lemma_plain_idents(s: Seq<char>, pre: bool)
    requires
        plain_identifiers(s, pre),
    ensures
        super::idents_check(s, pre) == Ok::<(), PrimitiveError>(()),
    decreases s.len(),
{
    let k = find(s, '.');
    lemma_find(s, '.');
    let seg = s.subrange(0, k as int);
    assert(k > 0);
    assert forall|i: int| 0 <= i < seg.len() implies ('a' <= #[trigger] seg[i] <= 'z' || 'A'
        <= seg[i] <= 'Z' || '0' <= seg[i] <= '9' || seg[i] == '-') by {
        assert(seg[i] == s[i]);
    }
    if pre && seg.len() > 1 && seg[0] == '0' {
        assert(s[0] == '0');
        assert(s[1] == seg[1]);
    }
    law_ident_accepts_alphanumerics(seg, pre);
    if k < s.len() {
        let rest = s.subrange(k + 1int, s.len() as int);
        assert(k + 1 < s.len());
        assert(rest[0] == s[k + 1int]);
        assert(rest[rest.len() - 1] == s[s.len() - 1]);
        assert forall|i: int| 0 <= i < rest.len() implies ('a' <= #[trigger] rest[i] <= 'z' || 'A'
            <= rest[i] <= 'Z' || '0' <= rest[i] <= '9' || rest[i] == '-' || rest[i] == '.') by {
            assert(rest[i] == s[k + 1 + i]);
        }
        assert forall|i: int| 0 < i < rest.len() implies !(#[trigger] rest[i] == '.' && rest[i - 1]
            == '.') by {
            assert(rest[i] == s[k + 1 + i]);
            assert(rest[i - 1] == s[k + 1 + i - 1]);
        }
        if pre {
            assert forall|i: int|
                0 <= i < rest.len() && #[trigger] rest[i] == '0' && (i == 0 || rest[i - 1] == '.')
                    implies (i + 1 == rest.len() || rest[i + 1] == '.') by {
                assert(rest[i] == s[k + 1 + i]);
                if i > 0 {
                    assert(rest[i - 1] == s[k + 1 + i - 1]);
                }
                if i + 1 < rest.len() {
                    assert(rest[i + 1] == s[k + 1 + i + 1]);
                }
            }
        }
        lemma_plain_idents(rest, pre);
    }
}

/// A pre-release or build part made of plain identifiers (ASCII letters of
/// either case, digits, hyphens; none empty; for a pre-release, no leading
/// zero) passes the identifier-set check, as in `1.0.0-RC.1`.
pub proof fn law_plain_identifiers_accepted(s: Seq<char>, pre: bool)
    requires
        plain_identifiers(s, pre),
    ensures
        super::set_check(s, pre) == Ok::<(), PrimitiveError>(()),
{
    lemma_plain_idents(s, pre);
}

} // verus!
