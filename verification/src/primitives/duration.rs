//! Human-readable durations such as `1h30m45s` or `500ms`.

use crate::decimal::{decimal, render_u128};
use crate::primitives::error::{PrimitiveError, PrimitiveResult};
use crate::time::{Duration, MAX_NANOS, NANOS_PER_SEC};
use vstd::prelude::*;
use vstd::utf8::encode_utf8;

pub mod laws;

verus! {

/// The message for a component without digits.
pub const DURATION_NO_NUMBER: &'static str = "expected a number before unit";

/// The message for a component number above `u64::MAX`.
pub const DURATION_TOO_LARGE: &'static str = "duration number is too large";

/// The message for a unit other than `h`, `m`, `s` or `ms`.
pub const DURATION_UNKNOWN_UNIT: &'static str = "unknown time unit; use h, m, s, or ms";

/// The message for a total beyond the largest span a `Duration` holds.
pub const DURATION_OVERFLOW: &'static str = "duration overflow";

/// The message for a unit that is not smaller than the one before it.
pub const DURATION_UNIT_ORDER: &'static str =
    "units must appear in descending order, each at most once";

/// An ASCII digit byte.
pub open spec fn is_digit_byte(c: u8) -> bool {
    48 <= c <= 57
}

/// An ASCII letter byte.
pub open spec fn is_alpha_byte(c: u8) -> bool {
    (65 <= c <= 90) || (97 <= c <= 122)
}

/// The end of the run of digit bytes starting at `from`.
pub open spec fn digit_run_end(b: Seq<u8>, from: nat) -> nat
    decreases b.len() - from,
{
    if from < b.len() && is_digit_byte(b[from as int]) {
        digit_run_end(b, from + 1)
    } else {
        from
    }
}

/// The end of the run of letter bytes starting at `from`.
pub open spec fn alpha_run_end(b: Seq<u8>, from: nat) -> nat
    decreases b.len() - from,
{
    if from < b.len() && is_alpha_byte(b[from as int]) {
        alpha_run_end(b, from + 1)
    } else {
        from
    }
}

/// The decimal value of the digit bytes `b[from..to]`.
pub open spec fn digits_value(b: Seq<u8>, from: nat, to: nat) -> nat
    decreases to - from,
{
    if to <= from {
        0
    } else {
        digits_value(b, from, (to - 1) as nat) * 10 + (b[to - 1] - 48) as nat
    }
}

/// Nanoseconds per unit for the unit spelled by `b[from..to]`.
pub open spec fn unit_nanos(b: Seq<u8>, from: nat, to: nat) -> Option<nat> {
    if to == from + 2 && b[from as int] == 109 && b[from + 1int] == 115 {
        Some(1_000_000)
    } else if to == from + 1 && b[from as int] == 115 {
        Some(1_000_000_000)
    } else if to == from + 1 && b[from as int] == 109 {
        Some(60_000_000_000)
    } else if to == from + 1 && b[from as int] == 104 {
        Some(3_600_000_000_000)
    } else {
        None
    }
}

/// The rank of a unit by its nanoseconds: `h` 4, `m` 3, `s` 2, `ms` 1.
pub open spec fn unit_rank(per: nat) -> nat {
    if per == 3_600_000_000_000 {
        4
    } else if per == 60_000_000_000 {
        3
    } else if per == 1_000_000_000 {
        2
    } else {
        1
    }
}

/// The rank before any unit was read: above every unit's rank.
pub open spec fn no_unit_rank() -> nat {
    5
}

/// Parses components from byte `pos` on, adding to `total` nanoseconds; each
/// unit must rank strictly below `prev`, the rank of the unit before it.
pub open spec fn parse_components(b: Seq<u8>, pos: nat, total: nat, prev: nat) -> Result<
    nat,
    PrimitiveError,
>
    decreases b.len() - pos,
{
    if pos >= b.len() {
        Ok(total)
    } else {
        let d_end = digit_run_end(b, pos);
        let u_end = alpha_run_end(b, d_end);
        let num = digits_value(b, pos, d_end);
        proof {
            lemma_digit_run(b, pos);
            lemma_alpha_run(b, d_end);
        }
        if d_end == pos {
            Err(PrimitiveError::Invalid { message: DURATION_NO_NUMBER })
        } else if num > u64::MAX {
            Err(PrimitiveError::Invalid { message: DURATION_TOO_LARGE })
        } else {
            match unit_nanos(b, d_end, u_end) {
                None => Err(PrimitiveError::Invalid { message: DURATION_UNKNOWN_UNIT }),
                Some(per) => if unit_rank(per) >= prev {
                    Err(PrimitiveError::Invalid { message: DURATION_UNIT_ORDER })
                } else if total + num * per > MAX_NANOS {
                    Err(PrimitiveError::Invalid { message: DURATION_OVERFLOW })
                } else {
                    parse_components(b, u_end, total + num * per, unit_rank(per))
                },
            }
        }
    }
}

/// The total nanoseconds spelled by the UTF-8 bytes `b`, or the error: units
/// in strictly descending order, the total within the range of a `Duration`.
pub open spec fn duration_parse(b: Seq<u8>) -> Result<nat, PrimitiveError> {
    if b.len() == 0 {
        Err(PrimitiveError::Empty)
    } else {
        parse_components(b, 0, 0, no_unit_rank())
    }
}

pub proof fn lemma_digit_run(b: Seq<u8>, from: nat)
    requires
        from <= b.len(),
    ensures
        from <= digit_run_end(b, from) <= b.len(),
        forall|i: int| from <= i < digit_run_end(b, from) ==> is_digit_byte(#[trigger] b[i]),
        digit_run_end(b, from) < b.len() ==> !is_digit_byte(b[digit_run_end(b, from) as int]),
    decreases b.len() - from,
{
    if from < b.len() && is_digit_byte(b[from as int]) {
        lemma_digit_run(b, from + 1);
    }
}

pub proof fn lemma_alpha_run(b: Seq<u8>, from: nat)
    requires
        from <= b.len(),
    ensures
        from <= alpha_run_end(b, from) <= b.len(),
        forall|i: int| from <= i < alpha_run_end(b, from) ==> is_alpha_byte(#[trigger] b[i]),
        alpha_run_end(b, from) < b.len() ==> !is_alpha_byte(b[alpha_run_end(b, from) as int]),
    decreases b.len() - from,
{
    if from < b.len() && is_alpha_byte(b[from as int]) {
        lemma_alpha_run(b, from + 1);
    }
}

proof fn lemma_digits_monotone(b: Seq<u8>, from: nat, mid: nat, to: nat)
    requires
        from <= mid <= to,
        forall|i: int| from <= i < to ==> is_digit_byte(#[trigger] b[i]),
    ensures
        digits_value(b, from, mid) <= digits_value(b, from, to),
    decreases to - mid,
{
    if mid < to {
        lemma_digits_monotone(b, from, mid, (to - 1) as nat);
        assert(is_digit_byte(b[to - 1]));
    }
}

/// Reads the digits `b[from..to]`, or `None` when their value exceeds `u64::MAX`.
fn read_number(b: &[u8], from: usize, to: usize) -> (r: Option<u64>)
    requires
        from <= to <= b@.len(),
        forall|i: int| from <= i < to ==> is_digit_byte(#[trigger] b@[i]),
    ensures
        r matches Some(v) ==> v == digits_value(b@, from as nat, to as nat),
        r is None ==> digits_value(b@, from as nat, to as nat) > u64::MAX,
{
    let mut value: u64 = 0;
    let mut i = from;
    while i < to
        invariant
            from <= i <= to,
            to <= b@.len(),
            forall|j: int| from <= j < to ==> is_digit_byte(#[trigger] b@[j]),
            value == digits_value(b@, from as nat, i as nat),
        decreases to - i,
    {
        let d = (b[i] - 48) as u64;
        assert(is_digit_byte(b@[i as int]));
        let next = match value.checked_mul(10) {
            Some(t) => t.checked_add(d),
            None => None,
        };
        match next {
            Some(v) => {
                value = v;
            },
            None => {
                proof {
                    lemma_digits_monotone(b@, from as nat, (i + 1) as nat, to as nat);
                }
                return None;
            },
        }
        i = i + 1;
    }
    Some(value)
}

/// The compact text of a span of `d` nanoseconds: hours, minutes, then seconds
/// (or milliseconds when there is a sub-second part), skipping zero parts;
/// `0s` when all are zero.
pub open spec fn duration_text(d: nat) -> Seq<char> {
    let secs = d / NANOS_PER_SEC as nat;
    let millis = (d % NANOS_PER_SEC as nat) / 1_000_000;
    let h = secs / 3600;
    let m = (secs % 3600) / 60;
    let s = secs % 60;
    let hours = if h > 0 { decimal(h) + seq!['h'] } else { Seq::empty() };
    let minutes = if m > 0 { decimal(m) + seq!['m'] } else { Seq::empty() };
    let rest = if millis > 0 {
        decimal(s * 1000 + millis) + seq!['m', 's']
    } else if s > 0 {
        decimal(s) + seq!['s']
    } else {
        Seq::empty()
    };
    if h == 0 && m == 0 && s == 0 && millis == 0 {
        seq!['0', 's']
    } else {
        hours + minutes + rest
    }
}

/// Human-readable duration parsed from strings like `1h`, `30m`, `45s`, `500ms`
/// or combinations such as `1h30m45s`.
///
/// Supported units: `h` (hours), `m` (minutes), `s` (seconds), `ms`
/// (milliseconds). Units must appear in descending order, each at most once.
#[derive(Debug, Copy, Clone, PartialEq, Eq, Hash)]
pub struct HumanDuration(Duration);

impl View for HumanDuration {
    type V = nat;

    closed spec fn view(&self) -> nat {
        self.0@
    }
}

impl HumanDuration {
    /// Parses a human-readable duration: one or more `<number><unit>`
    /// components with units `h`, `m`, `s` or `ms` in descending order, each at
    /// most once, summed; a total beyond `Duration::max_value()` is an error.
    pub fn parse(s: &str) -> (r: PrimitiveResult<HumanDuration>)
        ensures
            match (r, duration_parse(encode_utf8(s@))) {
                (Ok(d), Ok(total)) => d@ == total,
                (Err(e), Err(f)) => e == f,
                _ => false,
            },
    {
        let b = s.as_bytes();
        let n = b.len();
        if n == 0 {
            return Err(PrimitiveError::Empty);
        }
        let mut total: u128 = 0;
        let mut prev: u8 = 5;
        let mut pos: usize = 0;
        while pos < n
            invariant
                n == b@.len(),
                b@ == encode_utf8(s@),
                pos <= n,
                total <= MAX_NANOS,
                duration_parse(b@) == parse_components(b@, pos as nat, total as nat, prev as nat),
            decreases n - pos,
        {
            proof {
                lemma_digit_run(b@, pos as nat);
            }
            let num_start = pos;
            while pos < n && 48 <= b[pos] && b[pos] <= 57
                invariant
                    num_start <= pos <= n,
                    n == b@.len(),
                    digit_run_end(b@, num_start as nat) == digit_run_end(b@, pos as nat),
                    forall|i: int| num_start <= i < pos ==> is_digit_byte(#[trigger] b@[i]),
                decreases n - pos,
            {
                pos = pos + 1;
            }
            if pos == num_start {
                return Err(PrimitiveError::Invalid { message: DURATION_NO_NUMBER });
            }
            let num = match read_number(b, num_start, pos) {
                Some(v) => v,
                None => {
                    return Err(PrimitiveError::Invalid { message: DURATION_TOO_LARGE });
                },
            };
            let unit_start = pos;
            proof {
                lemma_alpha_run(b@, unit_start as nat);
            }
            while pos < n && ((65 <= b[pos] && b[pos] <= 90) || (97 <= b[pos] && b[pos] <= 122))
                invariant
                    unit_start <= pos <= n,
                    n == b@.len(),
                    alpha_run_end(b@, unit_start as nat) == alpha_run_end(b@, pos as nat),
                decreases n - pos,
            {
                pos = pos + 1;
            }
            let len = pos - unit_start;
            let (per, rank): (u128, u8) = if len == 2 && b[unit_start] == 109 && b[unit_start + 1]
                == 115 {
                (1_000_000, 1)
            } else if len == 1 && b[unit_start] == 115 {
                (1_000_000_000, 2)
            } else if len == 1 && b[unit_start] == 109 {
                (60_000_000_000, 3)
            } else if len == 1 && b[unit_start] == 104 {
                (3_600_000_000_000, 4)
            } else {
                return Err(PrimitiveError::Invalid { message: DURATION_UNKNOWN_UNIT });
            };
            if rank >= prev {
                return Err(PrimitiveError::Invalid { message: DURATION_UNIT_ORDER });
            }
            assert(num as nat * per as nat <= 0xffff_ffff_ffff_ffff * 3_600_000_000_000) by (nonlinear_arith)
                requires
                    num <= 0xffff_ffff_ffff_ffffu64,
                    per <= 3_600_000_000_000,
            ;
            let next = total + num as u128 * per;
            if next > MAX_NANOS {
                return Err(PrimitiveError::Invalid { message: DURATION_OVERFLOW });
            }
            total = next;
            prev = rank;
        }
        let secs = (total / 1_000_000_000) as u64;
        let nanos = (total % 1_000_000_000) as u32;
        Ok(HumanDuration(Duration::new(secs, nanos)))
    }

    /// Renders the compact text form, e.g. `1h30m` or `1500ms`.
    pub fn to_string(&self) -> (text: String)
        ensures
            text@ == duration_text(self@),
    {
        let nanos = self.0.as_nanos();
        let total_secs = nanos / 1_000_000_000;
        let millis = (nanos % 1_000_000_000) / 1_000_000;
        let h = total_secs / 3600;
        let m = (total_secs % 3600) / 60;
        let sec = total_secs % 60;
        proof {
            reveal_strlit("h");
            reveal_strlit("m");
            reveal_strlit("s");
            reveal_strlit("ms");
            reveal_strlit("0s");
        }
        if h == 0 && m == 0 && sec == 0 && millis == 0 {
            return "0s".to_owned();
        }
        let mut out = String::new();
        if h > 0 {
            out.append(render_u128(h).as_str());
            out.append("h");
        }
        if m > 0 {
            out.append(render_u128(m).as_str());
            out.append("m");
        }
        if millis > 0 {
            out.append(render_u128(sec * 1000 + millis).as_str());
            out.append("ms");
        } else if sec > 0 {
            out.append(render_u128(sec).as_str());
            out.append("s");
        }
        assert(out@ =~= duration_text(self@));
        out
    }

    /// Returns the span.
    pub fn as_duration(self) -> (d: Duration)
        ensures
            d@ == self@,
    {
        self.0
    }

    /// Returns the total number of whole seconds.
    pub fn as_secs(self) -> (s: u64)
        ensures
            s == self@ / NANOS_PER_SEC as nat,
    {
        self.0.as_secs()
    }

    /// Returns the total number of whole milliseconds.
    pub fn as_millis(self) -> (ms: u128)
        ensures
            ms == self@ / 1_000_000,
    {
        self.0.as_millis()
    }
}

} // verus!
