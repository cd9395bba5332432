//! Laws of human-readable durations: the text form parses back to the span.

use super::{
    alpha_run_end, digit_run_end, digits_value, duration_parse, duration_text, is_alpha_byte,
    is_digit_byte, lemma_alpha_run, lemma_digit_run, no_unit_rank, parse_components, unit_nanos,
    unit_rank,
};
use crate::decimal::{decimal, digit_char};
use crate::time::{MAX_NANOS, NANOS_PER_SEC};
use vstd::prelude::*;
use vstd::utf8::{encode_utf8, is_ascii_chars, is_ascii_chars_encode_utf8};

verus! {

proof fn lemma_digit_char_byte(d: nat)
    requires
        d < 10,
    ensures
        digit_char(d) as u8 == 48 + d,
        '0' <= digit_char(d) <= '9',
{
}

proof fn lemma_decimal_chars(n: nat)
    ensures
        decimal(n).len() >= 1,
        forall|i: int| 0 <= i < decimal(n).len() ==> '0' <= #[trigger] decimal(n)[i] <= '9',
    decreases n,
{
    if n < 10 {
        lemma_digit_char_byte(n);
    } else {
        lemma_decimal_chars(n / 10);
        lemma_digit_char_byte(n % 10);
    }
}

#[verifier::spinoff_prover]
proof fn lemma_decimal_bytes(b: Seq<u8>, pos: nat, n: nat)
    requires
        pos + decimal(n).len() <= b.len(),
        forall|i: int| 0 <= i < decimal(n).len() ==> b[pos + i] == #[trigger] decimal(n)[i] as u8,
    ensures
        forall|i: int| pos <= i < pos + decimal(n).len() ==> is_digit_byte(#[trigger] b[i]),
        digits_value(b, pos, pos + decimal(n).len()) == n,
    decreases n,
{
    lemma_decimal_chars(n);
    let l = decimal(n).len();
    assert forall|i: int| pos <= i < pos + l implies is_digit_byte(#[trigger] b[i]) by {
        assert(b[pos + (i - pos)] == decimal(n)[i - pos] as u8);
        assert('0' <= decimal(n)[i - pos] <= '9');
    }
    if n < 10 {
        lemma_digit_char_byte(n);
        assert(decimal(n)[0] == digit_char(n));
        assert(b[pos as int] == decimal(n)[0] as u8);
        assert(digits_value(b, pos, pos) == 0);
    } else {
        let p = n / 10;
        lemma_digit_char_byte(n % 10);
        assert(decimal(n) == decimal(p).push(digit_char(n % 10)));
        assert forall|i: int| 0 <= i < decimal(p).len() implies b[pos + i]
            == #[trigger] decimal(p)[i] as u8 by {
            assert(decimal(n)[i] == decimal(p)[i]);
        }
        lemma_decimal_bytes(b, pos, p);
        let k = decimal(p).len();
        assert(b[pos + k as int] == decimal(n)[k as int] as u8);
        assert(decimal(n)[k as int] == digit_char(n % 10));
        assert(digits_value(b, pos, pos + l) == digits_value(b, pos, pos + k) * 10 + (b[pos + k as int]
            - 48) as nat);
    }
}

proof fn lemma_digit_run_exact(b: Seq<u8>, from: nat, to: nat)
    requires
        from <= to <= b.len(),
        forall|i: int| from <= i < to ==> is_digit_byte(#[trigger] b[i]),
        to < b.len() ==> !is_digit_byte(b[to as int]),
    ensures
        digit_run_end(b, from) == to,
    decreases to - from,
{
    if from < to {
        lemma_digit_run_exact(b, from + 1, to);
    }
}

proof fn lemma_alpha_run_exact(b: Seq<u8>, from: nat, to: nat)
    requires
        from <= to <= b.len(),
        forall|i: int| from <= i < to ==> is_alpha_byte(#[trigger] b[i]),
        to < b.len() ==> !is_alpha_byte(b[to as int]),
    ensures
        alpha_run_end(b, from) == to,
    decreases to - from,
{
    if from < to {
        lemma_alpha_run_exact(b, from + 1, to);
    }
}

/// One component `<decimal(n)><unit>` at `pos`, followed by the end or a digit.
#[verifier::spinoff_prover]
proof fn lemma_step(b: Seq<u8>, pos: nat, total: nat, prev: nat, n: nat, ulen: nat, per: nat)
    requires
        pos + decimal(n).len() + ulen <= b.len(),
        1 <= ulen <= 2,
        forall|i: int| 0 <= i < decimal(n).len() ==> b[pos + i] == #[trigger] decimal(n)[i] as u8,
        forall|i: int|
            pos + decimal(n).len() <= i < pos + decimal(n).len() + ulen ==> is_alpha_byte(
                #[trigger] b[i],
            ),
        unit_nanos(b, pos + decimal(n).len(), pos + decimal(n).len() + ulen) == Some(per),
        pos + decimal(n).len() + ulen < b.len() ==> is_digit_byte(
            b[pos + decimal(n).len() + ulen as int],
        ),
        n <= u64::MAX,
        unit_rank(per) < prev,
        total + n * per <= MAX_NANOS,
    ensures
        parse_components(b, pos, total, prev) == parse_components(
            b,
            pos + decimal(n).len() + ulen,
            total + n * per,
            unit_rank(per),
        ),
{
    let l = decimal(n).len();
    lemma_decimal_chars(n);
    lemma_decimal_bytes(b, pos, n);
    lemma_digit_run_exact(b, pos, pos + l);
    lemma_alpha_run_exact(b, pos + l, pos + l + ulen);
    lemma_digit_run(b, pos);
    lemma_alpha_run(b, pos + l);
}

/// A parsed total is within range and a whole number of milliseconds.
proof fn lemma_parsed_whole_millis(b: Seq<u8>, pos: nat, total: nat, prev: nat)
    requires
        total <= MAX_NANOS,
        total % 1_000_000 == 0,
        parse_components(b, pos, total, prev) is Ok,
    ensures
        parse_components(b, pos, total, prev)->Ok_0 <= MAX_NANOS,
        parse_components(b, pos, total, prev)->Ok_0 % 1_000_000 == 0,
    decreases b.len() - pos,
{
    if pos < b.len() {
        let d_end = digit_run_end(b, pos);
        let u_end = alpha_run_end(b, d_end);
        let num = digits_value(b, pos, d_end);
        lemma_digit_run(b, pos);
        lemma_alpha_run(b, d_end);
        let per = unit_nanos(b, d_end, u_end)->Some_0;
        let k = per / 1_000_000;
        assert(per == k * 1_000_000);
        let next = total + num * per;
        assert(next == (total / 1_000_000 + num * k) * 1_000_000) by (nonlinear_arith)
            requires
                per == k * 1_000_000,
                total % 1_000_000 == 0,
                next == total + num * per,
        ;
        assert(next % 1_000_000 == 0) by (nonlinear_arith)
            requires
                next == (total / 1_000_000 + num * k) * 1_000_000,
        ;
        lemma_parsed_whole_millis(b, u_end, next, unit_rank(per));
    }
}

proof fn lemma_ascii_bytes(text: Seq<char>)
    requires
        is_ascii_chars(text),
    ensures
        encode_utf8(text).len() == text.len(),
        forall|i: int| 0 <= i < text.len() ==> #[trigger] encode_utf8(text)[i] == text[i] as u8,
{
    is_ascii_chars_encode_utf8(text);
}

spec fn secs_of(d: nat) -> nat {
    d / NANOS_PER_SEC as nat
}

spec fn millis_of(d: nat) -> nat {
    (d % NANOS_PER_SEC as nat) / 1_000_000
}

spec fn hours_of(d: nat) -> nat {
    secs_of(d) / 3600
}

spec fn minutes_of(d: nat) -> nat {
    (secs_of(d) % 3600) / 60
}

spec fn seconds_of(d: nat) -> nat {
    secs_of(d) % 60
}

spec fn hours_piece(d: nat) -> Seq<char> {
    if hours_of(d) > 0 {
        decimal(hours_of(d)) + seq!['h']
    } else {
        Seq::empty()
    }
}

spec fn minutes_piece(d: nat) -> Seq<char> {
    if minutes_of(d) > 0 {
        decimal(minutes_of(d)) + seq!['m']
    } else {
        Seq::empty()
    }
}

spec fn rest_number(d: nat) -> nat {
    if millis_of(d) > 0 {
        seconds_of(d) * 1000 + millis_of(d)
    } else {
        seconds_of(d)
    }
}

spec fn rest_piece(d: nat) -> Seq<char> {
    if millis_of(d) > 0 {
        decimal(rest_number(d)) + seq!['m', 's']
    } else if seconds_of(d) > 0 {
        decimal(rest_number(d)) + seq!['s']
    } else {
        Seq::empty()
    }
}

spec fn all_zero(d: nat) -> bool {
    hours_of(d) == 0 && minutes_of(d) == 0 && seconds_of(d) == 0 && millis_of(d) == 0
}

/// The text of a whole number of milliseconds splits into its units exactly.
#[verifier::spinoff_prover]
proof fn lemma_split_units(d: nat)
    requires
        d % 1_000_000 == 0,
        d <= MAX_NANOS,
    ensures
        d == hours_of(d) * 3_600_000_000_000 + minutes_of(d) * 60_000_000_000 + seconds_of(d)
            * 1_000_000_000 + millis_of(d) * 1_000_000,
        (seconds_of(d) * 1000 + millis_of(d)) * 1_000_000 == seconds_of(d) * 1_000_000_000
            + millis_of(d) * 1_000_000,
        millis_of(d) < 1000,
        minutes_of(d) < 60,
        seconds_of(d) < 60,
        hours_of(d) <= u64::MAX,
{
    let secs = secs_of(d);
    let millis = millis_of(d);
    let h = hours_of(d);
    let m = minutes_of(d);
    let s = seconds_of(d);
    let r = d % 1_000_000_000;
    assert(d == secs * 1_000_000_000 + r && r < 1_000_000_000) by {
        vstd::arithmetic::div_mod::lemma_fundamental_div_mod(d as int, 1_000_000_000);
    }
    assert(r % 1_000_000 == 0) by {
        vstd::arithmetic::div_mod::lemma_mod_multiples_vanish(
            (secs * 1000) as int,
            r as int,
            1_000_000,
        );
        assert(1_000_000 * (secs * 1000) + r == d);
    }
    assert(r == millis * 1_000_000) by {
        vstd::arithmetic::div_mod::lemma_fundamental_div_mod(r as int, 1_000_000);
    }
    let q = secs % 3600;
    assert(secs == h * 3600 + q && q < 3600) by {
        vstd::arithmetic::div_mod::lemma_fundamental_div_mod(secs as int, 3600);
    }
    assert(q == m * 60 + q % 60 && q % 60 < 60) by {
        vstd::arithmetic::div_mod::lemma_fundamental_div_mod(q as int, 60);
    }
    assert(q % 60 == s) by {
        vstd::arithmetic::div_mod::lemma_mod_mod(secs as int, 60, 60);
    }
    assert(secs <= u64::MAX) by {
        vstd::arithmetic::div_mod::lemma_div_is_ordered(d as int, MAX_NANOS as int, 1_000_000_000);
    }
    assert(millis < 1000);
}

proof fn lemma_piece_ascii(p: Seq<char>, n: nat, unit: Seq<char>)
    requires
        p == decimal(n) + unit,
        is_ascii_chars(unit),
    ensures
        is_ascii_chars(p),
{
    lemma_decimal_chars(n);
    assert forall|i: int| 0 <= i < p.len() implies '\0' <= #[trigger] p[i] <= '\u{7f}' by {
        if i < decimal(n).len() {
            assert(p[i] == decimal(n)[i]);
        } else {
            assert(p[i] == unit[i - decimal(n).len()]);
        }
    }
}

/// The text of a non-zero span is its three pieces, all ASCII, one byte each.
#[verifier::spinoff_prover]
proof fn lemma_text_facts(d: nat)
    requires
        !all_zero(d),
    ensures
        duration_text(d) == hours_piece(d) + minutes_piece(d) + rest_piece(d),
        is_ascii_chars(duration_text(d)),
        encode_utf8(duration_text(d)).len() == duration_text(d).len(),
        forall|i: int|
            0 <= i < duration_text(d).len() ==> #[trigger] encode_utf8(duration_text(d))[i]
                == duration_text(d)[i] as u8,
{
    let hp = hours_piece(d);
    let mp = minutes_piece(d);
    let rp = rest_piece(d);
    assert(duration_text(d) == hp + mp + rp);
    assert(is_ascii_chars(seq!['h']));
    assert(is_ascii_chars(seq!['m']));
    assert(is_ascii_chars(seq!['s']));
    assert(is_ascii_chars(seq!['m', 's']));
    if hours_of(d) > 0 {
        lemma_piece_ascii(hp, hours_of(d), seq!['h']);
    } else {
        assert(is_ascii_chars(hp));
    }
    if minutes_of(d) > 0 {
        lemma_piece_ascii(mp, minutes_of(d), seq!['m']);
    } else {
        assert(is_ascii_chars(mp));
    }
    if millis_of(d) > 0 {
        lemma_piece_ascii(rp, rest_number(d), seq!['m', 's']);
    } else if seconds_of(d) > 0 {
        lemma_piece_ascii(rp, rest_number(d), seq!['s']);
    } else {
        assert(is_ascii_chars(rp));
    }
    let text = hp + mp + rp;
    assert forall|i: int| 0 <= i < text.len() implies '\0' <= #[trigger] text[i] <= '\u{7f}' by {
        if i < hp.len() {
            assert(text[i] == hp[i]);
        } else if i < hp.len() + mp.len() {
            assert(text[i] == mp[i - hp.len()]);
        } else {
            assert(text[i] == rp[i - hp.len() - mp.len()]);
        }
    }
    lemma_ascii_bytes(text);
}

/// Where a piece that is not empty starts, the byte is a digit.
proof fn lemma_piece_starts_with_digit(p: Seq<char>, n: nat, unit: Seq<char>)
    requires
        p == decimal(n) + unit,
    ensures
        p.len() > 0,
        '0' <= p[0] <= '9',
{
    lemma_decimal_chars(n);
    assert(p[0] == decimal(n)[0]);
}

/// The component `decimal(n)` + `unit` placed at `pos` of the text of `d`.
#[verifier::spinoff_prover]
proof fn lemma_piece_at(d: nat, pos: nat, p: Seq<char>, n: nat, unit: Seq<char>, per: nat)
    requires
        !all_zero(d),
        p == decimal(n) + unit,
        1 <= unit.len() <= 2,
        pos + p.len() <= duration_text(d).len(),
        forall|i: int| 0 <= i < p.len() ==> duration_text(d)[pos + i] == #[trigger] p[i],
        (unit.len() == 1 && unit[0] == 'h' && per == 3_600_000_000_000) || (unit.len() == 1
            && unit[0] == 'm' && per == 60_000_000_000) || (unit.len() == 1 && unit[0] == 's'
            && per == 1_000_000_000) || (unit.len() == 2 && unit[0] == 'm' && unit[1] == 's'
            && per == 1_000_000),
        pos + p.len() < duration_text(d).len() ==> '0' <= duration_text(d)[pos + p.len() as int] <= '9',
    ensures
        ({
            let b = encode_utf8(duration_text(d));
            let l = decimal(n).len();
            &&& pos + l + unit.len() <= b.len()
            &&& forall|i: int| 0 <= i < l ==> b[pos + i] == #[trigger] decimal(n)[i] as u8
            &&& forall|i: int|
                pos + l <= i < pos + l + unit.len() ==> is_alpha_byte(#[trigger] b[i])
            &&& unit_nanos(b, pos + l, pos + l + unit.len()) == Some(per)
            &&& pos + l + unit.len() < b.len() ==> is_digit_byte(b[pos + l + unit.len() as int])
        }),
{
    lemma_text_facts(d);
    let text = duration_text(d);
    let b = encode_utf8(text);
    let l = decimal(n).len();
    assert forall|i: int| 0 <= i < l implies b[pos + i] == #[trigger] decimal(n)[i] as u8 by {
        assert(p[i] == decimal(n)[i]);
        assert(text[pos + i] == p[i]);
    }
    assert forall|j: int| 0 <= j < unit.len() implies b[pos + l + j] == #[trigger] unit[j] as u8 by {
        assert(p[l + j] == unit[j]);
        assert(text[pos + (l + j)] == p[l + j]);
    }
    assert(b[pos + l as int] == unit[0] as u8);
    if unit.len() == 2 {
        assert(b[pos + l + 1int] == unit[1] as u8);
    }
    assert forall|i: int| pos + l <= i < pos + l + unit.len() implies is_alpha_byte(
        #[trigger] b[i],
    ) by {
        assert(b[pos + l + (i - pos - l)] == unit[i - pos - l] as u8);
    }
}

spec fn text_bytes(d: nat) -> Seq<u8> {
    encode_utf8(duration_text(d))
}

spec fn first_end(d: nat) -> nat {
    hours_piece(d).len()
}

spec fn second_end(d: nat) -> nat {
    hours_piece(d).len() + minutes_piece(d).len()
}

spec fn first_total(d: nat) -> nat {
    hours_of(d) * 3_600_000_000_000
}

spec fn first_rank(d: nat) -> nat {
    if hours_of(d) > 0 {
        4
    } else {
        5
    }
}

spec fn second_total(d: nat) -> nat {
    first_total(d) + minutes_of(d) * 60_000_000_000
}

spec fn second_rank(d: nat) -> nat {
    if minutes_of(d) > 0 {
        3
    } else {
        first_rank(d)
    }
}

/// After the hours piece and after the minutes piece comes a digit or the end.
proof fn lemma_next_digits(d: nat)
    requires
        !all_zero(d),
    ensures
        first_end(d) < duration_text(d).len() ==> '0' <= duration_text(d)[first_end(d) as int]
            <= '9',
        second_end(d) < duration_text(d).len() ==> '0' <= duration_text(d)[second_end(d) as int]
            <= '9',
{
    lemma_text_facts(d);
    let text = duration_text(d);
    let hp = hours_piece(d);
    let mp = minutes_piece(d);
    let rp = rest_piece(d);
    if mp.len() > 0 {
        lemma_piece_starts_with_digit(mp, minutes_of(d), seq!['m']);
        assert(text[first_end(d) as int] == mp[0]);
    }
    if rp.len() > 0 {
        if millis_of(d) > 0 {
            lemma_piece_starts_with_digit(rp, rest_number(d), seq!['m', 's']);
        } else {
            lemma_piece_starts_with_digit(rp, rest_number(d), seq!['s']);
        }
        assert(text[second_end(d) as int] == rp[0]);
    }
}

#[verifier::spinoff_prover]
proof fn lemma_hours_step(d: nat)
    requires
        d % 1_000_000 == 0,
        d <= MAX_NANOS,
        !all_zero(d),
    ensures
        parse_components(text_bytes(d), 0, 0, no_unit_rank()) == parse_components(
            text_bytes(d),
            first_end(d),
            first_total(d),
            first_rank(d),
        ),
{
    let h = hours_of(d);
    if h > 0 {
        lemma_split_units(d);
        lemma_text_facts(d);
        lemma_next_digits(d);
        let text = duration_text(d);
        let hp = hours_piece(d);
        assert forall|i: int| 0 <= i < hp.len() implies text[0 + i] == #[trigger] hp[i] by {}
        lemma_piece_at(d, 0, hp, h, seq!['h'], 3_600_000_000_000);
        assert(h * 3_600_000_000_000 <= d);
        lemma_step(text_bytes(d), 0, 0, no_unit_rank(), h, 1, 3_600_000_000_000);
    }
}

#[verifier::spinoff_prover]
proof fn lemma_minutes_step(d: nat)
    requires
        d % 1_000_000 == 0,
        d <= MAX_NANOS,
        !all_zero(d),
    ensures
        parse_components(text_bytes(d), first_end(d), first_total(d), first_rank(d))
            == parse_components(text_bytes(d), second_end(d), second_total(d), second_rank(d)),
{
    let m = minutes_of(d);
    if m > 0 {
        lemma_split_units(d);
        lemma_text_facts(d);
        lemma_next_digits(d);
        let text = duration_text(d);
        let hp = hours_piece(d);
        let mp = minutes_piece(d);
        let p1 = first_end(d);
        assert forall|i: int| 0 <= i < mp.len() implies text[p1 + i] == #[trigger] mp[i] by {
            assert(text[p1 + i] == (hp + mp)[p1 + i]);
        }
        lemma_piece_at(d, p1, mp, m, seq!['m'], 60_000_000_000);
        lemma_step(text_bytes(d), p1, first_total(d), first_rank(d), m, 1, 60_000_000_000);
    }
}

#[verifier::spinoff_prover]
proof fn lemma_rest_step(d: nat)
    requires
        d % 1_000_000 == 0,
        d <= MAX_NANOS,
        !all_zero(d),
    ensures
        parse_components(text_bytes(d), second_end(d), second_total(d), second_rank(d)) == Ok::<
            nat,
            crate::primitives::error::PrimitiveError,
        >(d),
{
    lemma_split_units(d);
    lemma_text_facts(d);
    let text = duration_text(d);
    let rp = rest_piece(d);
    let p2 = second_end(d);
    assert(p2 + rp.len() == text.len());
    if rp.len() > 0 {
        assert forall|i: int| 0 <= i < rp.len() implies text[p2 + i] == #[trigger] rp[i] by {}
        if millis_of(d) > 0 {
            lemma_piece_at(d, p2, rp, rest_number(d), seq!['m', 's'], 1_000_000);
            lemma_step(text_bytes(d), p2, second_total(d), second_rank(d), rest_number(d), 2, 1_000_000);
        } else {
            lemma_piece_at(d, p2, rp, rest_number(d), seq!['s'], 1_000_000_000);
            lemma_step(
                text_bytes(d),
                p2,
                second_total(d),
                second_rank(d),
                rest_number(d),
                1,
                1_000_000_000,
            );
        }
    }
}

/// The hours piece, then the minutes piece, then the rest, step by step.
proof fn lemma_steps(d: nat)
    requires
        d % 1_000_000 == 0,
        d <= MAX_NANOS,
        !all_zero(d),
    ensures
        parse_components(encode_utf8(duration_text(d)), 0, 0, no_unit_rank()) == Ok::<
            nat,
            crate::primitives::error::PrimitiveError,
        >(d),
{
    lemma_hours_step(d);
    lemma_minutes_step(d);
    lemma_rest_step(d);
}

/// Parsing the text form of a parsed duration gives back the same span.
pub proof fn law_text_round_trip(b: Seq<u8>, t: nat)
    requires
        duration_parse(b) == Ok::<nat, crate::primitives::error::PrimitiveError>(t),
    ensures
        duration_parse(encode_utf8(duration_text(t))) == Ok::<
            nat,
            crate::primitives::error::PrimitiveError,
        >(t),
{
    lemma_parsed_whole_millis(b, 0, 0, no_unit_rank());
    lemma_split_units(t);
    if all_zero(t) {
        let text = duration_text(t);
        assert(text == seq!['0', 's']);
        assert(is_ascii_chars(text));
        lemma_ascii_bytes(text);
        let bytes = encode_utf8(text);
        assert(decimal(0) == seq!['0']);
        assert(bytes[0] == 48 && bytes[1] == 115);
        assert forall|i: int| 0 + decimal(0).len() <= i < 0 + decimal(0).len() + 1 implies is_alpha_byte(
            #[trigger] bytes[i],
        ) by {}
        assert(unit_nanos(bytes, 1, 2) == Some(1_000_000_000nat));
        lemma_step(bytes, 0, 0, no_unit_rank(), 0, 1, 1_000_000_000);
    } else {
        lemma_steps(t);
    }
}

} // verus!
