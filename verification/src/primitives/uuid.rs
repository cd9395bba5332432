//! UUIDs in the canonical `xxxxxxxx-xxxx-xxxx-xxxx-xxxxxxxxxxxx` form.

use crate::primitives::error::{PrimitiveError, PrimitiveResult};
use vstd::prelude::*;
use vstd::utf8::{encode_utf8, is_ascii_chars, is_ascii_chars_encode_utf8};

verus! {

/// The message for text that is not a canonical UUID.
pub const UUID_INVALID: &'static str = "UUID must be in the format xxxxxxxx-xxxx-xxxx-xxxx-xxxxxxxxxxxx";

/// The value of an ASCII hex digit byte (either case).
pub open spec fn hex_value(c: u8) -> Option<u8> {
    if 48 <= c <= 57 {
        Some((c - 48) as u8)
    } else if 97 <= c <= 102 {
        Some((c - 87) as u8)
    } else if 65 <= c <= 70 {
        Some((c - 55) as u8)
    } else {
        None
    }
}

fn hex_val(c: u8) -> (r: Option<u8>)
    ensures
        r == hex_value(c),
{
    if 48 <= c && c <= 57 {
        Some(c - 48)
    } else if 97 <= c && c <= 102 {
        Some(c - 87)
    } else if 65 <= c && c <= 70 {
        Some(c - 55)
    } else {
        None
    }
}

/// The number of dashes before the text of byte `j` (`0..16`).
pub open spec fn dashes_before(j: int) -> int {
    if j < 4 {
        0
    } else if j < 6 {
        1
    } else if j < 8 {
        2
    } else if j < 10 {
        3
    } else {
        4
    }
}

/// The text position of the high hex digit of byte `j`.
pub open spec fn hex_pos(j: int) -> int {
    2 * j + dashes_before(j)
}

/// The canonical layout: 36 bytes, dashes at 8, 13, 18 and 23, hex digits
/// everywhere else.
pub open spec fn uuid_text_ok(b: Seq<u8>) -> bool {
    &&& b.len() == 36
    &&& b[8] == 45 && b[13] == 45 && b[18] == 45 && b[23] == 45
    &&& forall|j: int|
        0 <= j < 16 ==> #[trigger] hex_value(b[hex_pos(j)]) is Some && hex_value(b[hex_pos(j) + 1]) is Some
}

/// The sixteen bytes a canonical UUID text spells.
pub open spec fn uuid_bytes(b: Seq<u8>) -> Seq<u8> {
    Seq::new(
        16,
        |j: int|
            (hex_value(b[hex_pos(j)])->0 * 16 + hex_value(b[hex_pos(j) + 1])->0) as u8,
    )
}

/// The outcome of parsing the UTF-8 bytes `b` of a UUID text.
pub open spec fn uuid_parse(b: Seq<u8>) -> Result<Seq<u8>, PrimitiveError> {
    if b.len() == 0 {
        Err(PrimitiveError::Empty)
    } else if !uuid_text_ok(b) {
        Err(PrimitiveError::Invalid { message: UUID_INVALID })
    } else {
        Ok(uuid_bytes(b))
    }
}

/// A lowercase hex digit for `n` (`0..16`).
pub open spec fn hex_char(n: nat) -> char {
    if n < 10 {
        ((48 + n) as u32) as char
    } else {
        ((87 + n) as u32) as char
    }
}

/// The canonical text of the first `j` bytes, dashes included.
pub open spec fn uuid_text_prefix(b: Seq<u8>, j: nat) -> Seq<char>
    decreases j,
{
    if j == 0 {
        Seq::empty()
    } else {
        let k = (j - 1) as nat;
        let sep = if k == 4 || k == 6 || k == 8 || k == 10 {
            seq!['-']
        } else {
            Seq::empty()
        };
        uuid_text_prefix(b, k) + sep + seq![hex_char(b[k as int] as nat / 16), hex_char(b[k as int] as nat % 16)]
    }
}

/// UUID in canonical `xxxxxxxx-xxxx-xxxx-xxxx-xxxxxxxxxxxx` form; either case is
/// accepted, rendering is lowercase.
#[derive(Debug, Copy, Clone, PartialEq, Eq, Hash)]
pub struct Uuid([u8; 16]);

impl View for Uuid {
    type V = Seq<u8>;

    closed spec fn view(&self) -> Seq<u8> {
        self.0@
    }
}

fn hex_digit_str(n: u8) -> (s: &'static str)
    requires
        n < 16,
    ensures
        s@ == seq![hex_char(n as nat)],
{
    proof {
        reveal_strlit("0");
        reveal_strlit("1");
        reveal_strlit("2");
        reveal_strlit("3");
        reveal_strlit("4");
        reveal_strlit("5");
        reveal_strlit("6");
        reveal_strlit("7");
        reveal_strlit("8");
        reveal_strlit("9");
        reveal_strlit("a");
        reveal_strlit("b");
        reveal_strlit("c");
        reveal_strlit("d");
        reveal_strlit("e");
        reveal_strlit("f");
    }
    match n {
        0 => "0",
        1 => "1",
        2 => "2",
        3 => "3",
        4 => "4",
        5 => "5",
        6 => "6",
        7 => "7",
        8 => "8",
        9 => "9",
        10 => "a",
        11 => "b",
        12 => "c",
        13 => "d",
        14 => "e",
        _ => "f",
    }
}

impl Uuid {
    /// Parses a UUID from its canonical text; empty text is `Empty`, anything
    /// not in the canonical layout is `Invalid`.
    pub fn parse(s: &str) -> (r: PrimitiveResult<Uuid>)
        ensures
            match (r, uuid_parse(encode_utf8(s@))) {
                (Ok(u), Ok(bytes)) => u@ == bytes,
                (Err(e), Err(f)) => e == f,
                _ => false,
            },
    {
        let b = s.as_bytes();
        if b.len() == 0 {
            return Err(PrimitiveError::Empty);
        }
        if b.len() != 36 || b[8] != 45 || b[13] != 45 || b[18] != 45 || b[23] != 45 {
            return Err(PrimitiveError::Invalid { message: UUID_INVALID });
        }
        let mut result = [0u8; 16];
        let mut j: usize = 0;
        while j < 16
            invariant
                b@ == encode_utf8(s@),
                b@.len() == 36,
                j <= 16,
                forall|k: int|
                    0 <= k < j ==> #[trigger] hex_value(b@[hex_pos(k)]) is Some && hex_value(
                        b@[hex_pos(k) + 1],
                    ) is Some,
                forall|k: int| 0 <= k < j ==> result@[k] == #[trigger] uuid_bytes(b@)[k],
                result@.len() == 16,
            decreases 16 - j,
        {
            let dashes: usize = if j < 4 {
                0
            } else if j < 6 {
                1
            } else if j < 8 {
                2
            } else if j < 10 {
                3
            } else {
                4
            };
            let pos = 2 * j + dashes;
            let hi = match hex_val(b[pos]) {
                Some(v) => v,
                None => {
                    proof {
                        assert(!(hex_value(b@[hex_pos(j as int)]) is Some));
                    }
                    return Err(PrimitiveError::Invalid { message: UUID_INVALID });
                },
            };
            let lo = match hex_val(b[pos + 1]) {
                Some(v) => v,
                None => {
                    proof {
                        assert(!(hex_value(b@[hex_pos(j as int) + 1]) is Some));
                    }
                    return Err(PrimitiveError::Invalid { message: UUID_INVALID });
                },
            };
            result.set(j, hi * 16 + lo);
            j = j + 1;
        }
        assert(result@ =~= uuid_bytes(b@));
        Ok(Uuid(result))
    }

    /// Returns the sixteen bytes.
    pub fn as_bytes(&self) -> (r: &[u8; 16])
        ensures
            r@ == self@,
    {
        &self.0
    }

    /// Returns the version nibble (the high four bits of byte 6).
    pub fn version(&self) -> (v: u8)
        ensures
            v == self@[6] / 16,
    {
        let b = self.0[6];
        assert((b >> 4u8) & 0x0fu8 == b / 16) by (bit_vector);
        (b >> 4) & 0x0f
    }

    /// Renders the canonical lowercase text.
    pub fn to_string(&self) -> (s: String)
        ensures
            s@ == uuid_text_prefix(self@, 16),
    {
        let mut s = String::new();
        let mut j: usize = 0;
        while j < 16
            invariant
                j <= 16,
                self.0@.len() == 16,
                s@ == uuid_text_prefix(self.0@, j as nat),
            decreases 16 - j,
        {
            if j == 4 || j == 6 || j == 8 || j == 10 {
                proof {
                    reveal_strlit("-");
                }
                s.append("-");
            }
            let byte = self.0[j];
            s.append(hex_digit_str(byte / 16));
            s.append(hex_digit_str(byte % 16));
            j = j + 1;
        }
        s
    }
}

proof fn lemma_hex_char(n: nat)
    requires
        n < 16,
    ensures
        '\0' <= hex_char(n) <= '\u{7f}',
        hex_value(hex_char(n) as u8) == Some(n as u8),
{
}

proof fn lemma_text_prefix(b: Seq<u8>, j: nat)
    requires
        b.len() == 16,
        j <= 16,
    ensures
        uuid_text_prefix(b, j).len() == if j == 0 {
            0
        } else {
            2 * j + dashes_before(j - 1)
        },
        is_ascii_chars(uuid_text_prefix(b, j)),
        forall|k: int|
            0 <= k < j ==> uuid_text_prefix(b, j)[#[trigger] hex_pos(k)] == hex_char(b[k] as nat / 16)
                && uuid_text_prefix(b, j)[hex_pos(k) + 1] == hex_char(b[k] as nat % 16),
        forall|k: int|
            0 <= k < j && (k == 4 || k == 6 || k == 8 || k == 10) ==> uuid_text_prefix(b, j)[hex_pos(k)
                - 1] == '-',
    decreases j,
{
    if j > 0 {
        let k = (j - 1) as nat;
        lemma_text_prefix(b, k);
        lemma_hex_char(b[k as int] as nat / 16);
        lemma_hex_char(b[k as int] as nat % 16);
        let prev = uuid_text_prefix(b, k);
        let t = uuid_text_prefix(b, j);
        assert(forall|q: int| 0 <= q < prev.len() ==> t[q] == prev[q]);
    }
}

/// Parsing the text a UUID renders gives back the same UUID.
pub proof fn law_text_round_trip(b: Seq<u8>)
    requires
        b.len() == 16,
    ensures
        uuid_parse(encode_utf8(uuid_text_prefix(b, 16))) == Ok::<Seq<u8>, PrimitiveError>(b),
{
    let t = uuid_text_prefix(b, 16);
    lemma_text_prefix(b, 16);
    is_ascii_chars_encode_utf8(t);
    let e = encode_utf8(t);
    assert(hex_pos(4) - 1 == 8 && hex_pos(6) - 1 == 13 && hex_pos(8) - 1 == 18 && hex_pos(10) - 1 == 23);
    assert(t[8] == '-' && t[13] == '-' && t[18] == '-' && t[23] == '-');
    assert forall|j: int| 0 <= j < 16 implies #[trigger] hex_value(e[hex_pos(j)]) == Some((b[j] as nat / 16) as u8)
        && hex_value(e[hex_pos(j) + 1]) == Some((b[j] as nat % 16) as u8) by {
        lemma_hex_char(b[j] as nat / 16);
        lemma_hex_char(b[j] as nat % 16);
    }
    assert(uuid_text_ok(e));
    assert(uuid_bytes(e) =~= b);
}

/// An ASCII byte with an uppercase letter turned to lowercase.
pub open spec fn lower_byte(c: u8) -> u8 {
    if 65 <= c <= 90 {
        (c + 32) as u8
    } else {
        c
    }
}

proof fn lemma_hex_char_lower(c: u8)
    requires
        hex_value(c) is Some,
    ensures
        hex_value(c)->0 < 16,
        hex_char(hex_value(c)->0 as nat) as u8 == lower_byte(c),
{
}

/// Rendering a parsed UUID gives back the text it was parsed from, lowercased.
pub proof fn law_render_lowercases_parsed(e: Seq<u8>)
    requires
        uuid_text_ok(e),
    ensures
        encode_utf8(uuid_text_prefix(uuid_bytes(e), 16)) == Seq::new(36, |i: int| lower_byte(e[i])),
{
    let b = uuid_bytes(e);
    let t = uuid_text_prefix(b, 16);
    lemma_text_prefix(b, 16);
    is_ascii_chars_encode_utf8(t);
    let r = encode_utf8(t);
    let want = Seq::new(36, |i: int| lower_byte(e[i]));
    assert(hex_pos(4) - 1 == 8 && hex_pos(6) - 1 == 13 && hex_pos(8) - 1 == 18 && hex_pos(10) - 1 == 23);
    assert forall|j: int| 0 <= j < 16 implies r[#[trigger] hex_pos(j)] == want[hex_pos(j)] && r[hex_pos(j) + 1]
        == want[hex_pos(j) + 1] by {
        assert(hex_value(e[hex_pos(j)]) is Some && hex_value(e[hex_pos(j) + 1]) is Some);
        lemma_hex_char_lower(e[hex_pos(j)]);
        lemma_hex_char_lower(e[hex_pos(j) + 1]);
        let hi = hex_value(e[hex_pos(j)])->0;
        let lo = hex_value(e[hex_pos(j) + 1])->0;
        assert(b[j] == (hi * 16 + lo) as u8);
        assert(b[j] as nat / 16 == hi as nat && b[j] as nat % 16 == lo as nat);
    }
    assert forall|i: int| 0 <= i < 36 implies r[i] == want[i] by {
        if i == 8 || i == 13 || i == 18 || i == 23 {
        } else {
            let j = if i < 8 {
                i / 2
            } else if i < 13 {
                (i - 1) / 2
            } else if i < 18 {
                (i - 2) / 2
            } else if i < 23 {
                (i - 3) / 2
            } else {
                (i - 4) / 2
            };
            assert(0 <= j < 16);
            assert(i == hex_pos(j) || i == hex_pos(j) + 1);
        }
    }
    assert(r =~= want);
}

} // verus!
