//! The text of a byte count: whole bytes, or two decimals of the largest unit
//! that fits, as `{:.2}` prints the nearest `f64`, computed exactly.

use crate::decimal::{decimal, render_u128};
use vstd::prelude::*;

verus! {

/// `2` to the power `k`.
pub open spec fn two_to(k: nat) -> nat
    decreases k,
{
    if k == 0 {
        1
    } else {
        2 * two_to((k - 1) as nat)
    }
}

/// How many low bits of `n` fall outside the 53 significant bits of an
/// `f64`, from `e` on (at most 11 for a 64-bit count).
pub open spec fn shift_from(n: nat, e: nat) -> nat
    decreases 11 - e,
{
    if e >= 11 || n < two_to(53 + e) {
        e
    } else {
        shift_from(n, e + 1)
    }
}

/// `q`, or `q + 1` when the remainder `r` of a division by `step` is more
/// than half of it, or exactly half and `q` is odd: rounding half to even.
pub open spec fn round_half_even(q: nat, r: nat, step: nat) -> nat {
    if r * 2 > step || (r * 2 == step && q % 2 == 1) {
        q + 1
    } else {
        q
    }
}

/// The `f64` nearest to `n`, rounding half to even, for `n < 2^64`.
pub open spec fn nearest_double(n: nat) -> nat {
    let step = two_to(shift_from(n, 0));
    round_half_even(n / step, n % step, step) * step
}

/// `x / unit` in hundredths, rounded half to even.
pub open spec fn hundredths(x: nat, unit: nat) -> nat {
    round_half_even(x * 100 / unit, x * 100 % unit, unit)
}

/// A count of hundredths written with two decimals.
pub open spec fn two_decimals(n: nat) -> Seq<char> {
    decimal(n / 100) + "."@ + decimal(n % 100 / 10) + decimal(n % 10)
}

/// The text of a byte count: `N B` below a kibibyte, else the count in the
/// largest of KB, MB and GB (powers of 1024) that it reaches, with two
/// decimals.
pub open spec fn size_text(b: nat) -> Seq<char> {
    if b < 1024 {
        decimal(b) + " B"@
    } else if b < 1048576 {
        two_decimals(hundredths(nearest_double(b), 1024)) + " KB"@
    } else if b < 1073741824 {
        two_decimals(hundredths(nearest_double(b), 1048576)) + " MB"@
    } else {
        two_decimals(hundredths(nearest_double(b), 1073741824)) + " GB"@
    }
}

proof fn lemma_two_to_53()
    ensures
        two_to(53) == 0x20_0000_0000_0000,
{
    reveal_with_fuel(two_to, 54);
}

proof fn lemma_two_to_monotone(a: nat, b: nat)
    requires
        a <= b,
    ensures
        two_to(a) <= two_to(b),
    decreases b - a,
{
    if a < b {
        lemma_two_to_monotone(a, (b - 1) as nat);
    }
}

fn nearest_double_of(n: u64) -> (r: u128)
    ensures
        r == nearest_double(n as nat),
        r <= 0x1_0000_0000_0000_0800,
{
    let mut e: u32 = 0;
    let mut step: u128 = 1;
    let mut limit: u128 = 0x20_0000_0000_0000;
    proof {
        lemma_two_to_53();
        lemma_two_to_monotone(0, 11);
    }
    while e < 11 && n as u128 >= limit
        invariant
            e <= 11,
            step == two_to(e as nat),
            limit == two_to(53 + e as nat),
            limit == step * 0x20_0000_0000_0000,
            shift_from(n as nat, 0) == shift_from(n as nat, e as nat),
            1 <= step <= two_to(11),
        decreases 11 - e,
    {
        proof {
            assert(two_to(e as nat + 1) == 2 * two_to(e as nat));
            assert(two_to(53 + e as nat + 1) == 2 * two_to(53 + e as nat));
        }
        e = e + 1;
        step = step * 2;
        limit = limit * 2;
        proof {
            lemma_two_to_monotone(e as nat, 11);
        }
    }
    proof {
        reveal_with_fuel(two_to, 12);
        assert(two_to(11) == 0x800);
    }
    let q = n as u128 / step;
    let r = n as u128 % step;
    let rounded = if r * 2 > step || (r * 2 == step && q % 2 == 1) {
        q + 1
    } else {
        q
    };
    proof {
        assert(q * step <= n) by (nonlinear_arith)
            requires
                q == n as u128 / step,
                step > 0,
        ;
        assert((q + 1) * step <= n + step) by (nonlinear_arith)
            requires
                q * step <= n,
        ;
    }
    rounded * step
}

fn two_decimals_of(n: u128) -> (s: String)
    ensures
        s@ == two_decimals(n as nat),
{
    let mut s = render_u128(n / 100);
    s.append(".");
    s.append(render_u128(n % 100 / 10).as_str());
    s.append(render_u128(n % 10).as_str());
    s
}

/// Writes the text of a byte count.
pub fn render_size(b: u64) -> (s: String)
    ensures
        s@ == size_text(b as nat),
{
    if b < 1024 {
        let mut s = render_u128(b as u128);
        s.append(" B");
        return s;
    }
    let (unit, suffix): (u128, &str) = if b < 1048576 {
        (1024, " KB")
    } else if b < 1073741824 {
        (1048576, " MB")
    } else {
        (1073741824, " GB")
    };
    let x = nearest_double_of(b);
    let scaled = x * 100;
    let q = scaled / unit;
    let r = scaled % unit;
    let n = if r * 2 > unit || (r * 2 == unit && q % 2 == 1) {
        q + 1
    } else {
        q
    };
    let mut s = two_decimals_of(n);
    s.append(suffix);
    s
}

} // verus!
