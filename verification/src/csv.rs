//! Encoding and decoding of single CSV fields.

use crate::chars::{
    all_digit_chars, all_digits, digits_number, is_digit, lemma_digits_prefix_monotone,
};
use crate::chars::str_eq;
use crate::decimal::{decimal, digit_char, render_i128, render_u128, signed_decimal};
use vstd::prelude::*;

verus! {

/// The message for a field that is not an integer of the target type.
pub const NOT_INTEGER: &'static str = "field is not an integer that fits the target type";

/// The message for a field that is neither `true` nor `false`.
pub const NOT_BOOL: &'static str = "field is not `true` or `false`";

/// The message for an empty field where a character is expected.
pub const EMPTY_FIELD: &'static str = "field is empty";

/// The message for a field of more than one character where one is expected.
pub const NOT_ONE_CHAR: &'static str = "field is not a single char";

/// Error returned when a field cannot be decoded, with the index of the field
/// once it is known.
#[derive(Debug, Clone, PartialEq, Eq)]
pub struct CsvDecodeError {
    message: &'static str,
    field: Option<usize>,
}

impl View for CsvDecodeError {
    type V = (Seq<char>, Option<usize>);

    closed spec fn view(&self) -> (Seq<char>, Option<usize>) {
        (self.message@, self.field)
    }
}

impl CsvDecodeError {
    /// An error about a field's content, not yet tied to a field index.
    pub fn field(message: &'static str) -> (e: CsvDecodeError)
        ensures
            e@ == (message@, None::<usize>),
    {
        CsvDecodeError { message, field: None }
    }

    /// The same error, tied to the field at `index`.
    pub fn at_field(self, index: usize) -> (e: CsvDecodeError)
        ensures
            e@ == (self@.0, Some(index)),
    {
        CsvDecodeError { message: self.message, field: Some(index) }
    }

    /// The description of what is wrong with the field.
    pub fn message(&self) -> (m: &'static str)
        ensures
            m@ == self@.0,
    {
        self.message
    }

    /// The index of the field, once known.
    pub fn field_index(&self) -> (i: Option<usize>)
        ensures
            i == self@.1,
    {
        self.field
    }
}

/// A scalar value that maps to and from a single CSV field. Encoding never
/// fails; decoding is strict: the text must name a value of the type exactly.
pub trait CsvField: Sized {
    /// Encodes `self` into a field value.
    fn encode_field(&self) -> String;

    /// Decodes a field value into `Self`, or returns a [`CsvDecodeError`].
    fn decode_field(input: &str) -> Result<Self, CsvDecodeError>;
}

/// The number that a run of one or more decimal digits names.
pub open spec fn digits_value(s: Seq<char>) -> Option<nat> {
    if s.len() > 0 && all_digits(s) {
        Some(digits_number(s))
    } else {
        None
    }
}

/// The number an unsigned integer field names: an optional `+`, then one or
/// more decimal digits.
pub open spec fn unsigned_text(s: Seq<char>) -> Option<int> {
    let d = if s.len() > 0 && s[0] == '+' { s.drop_first() } else { s };
    match digits_value(d) {
        Some(n) => Some(n as int),
        None => None,
    }
}

/// The number a signed integer field names: an optional `+` or `-`, then one
/// or more decimal digits.
pub open spec fn signed_text(s: Seq<char>) -> Option<int> {
    if s.len() > 0 && s[0] == '-' {
        match digits_value(s.drop_first()) {
            Some(n) => Some(-n),
            None => None,
        }
    } else {
        unsigned_text(s)
    }
}

/// The number `o`, when it lies in `lo..=hi`.
pub open spec fn within(o: Option<int>, lo: int, hi: int) -> Option<int> {
    match o {
        Some(v) => if lo <= v <= hi {
            Some(v)
        } else {
            None
        },
        None => None,
    }
}

fn read_digits(d: &str) -> (r: Option<u128>)
    ensures
        match digits_value(d@) {
            Some(n) => if n <= u128::MAX {
                r == Some(n as u128)
            } else {
                r is None
            },
            None => r is None,
        },
{
    let n = d.unicode_len();
    if n == 0 || !all_digit_chars(d) {
        return None;
    }
    let mut value: u128 = 0;
    let mut i: usize = 0;
    while i < n
        invariant
            n == d@.len(),
            n > 0,
            i <= n,
            all_digits(d@),
            value == digits_number(d@.subrange(0, i as int)),
        decreases n - i,
    {
        let c = d.get_char(i);
        assert(is_digit(d@[i as int]));
        let digit = (c as u32 - '0' as u32) as u128;
        assert(d@.subrange(0, i + 1).drop_last() =~= d@.subrange(0, i as int));
        assert(d@.subrange(0, i + 1).last() == c);
        assert(digits_number(d@.subrange(0, i + 1)) == value * 10 + digit);
        let next = match value.checked_mul(10) {
            Some(t) => t.checked_add(digit),
            None => None,
        };
        match next {
            Some(v) => {
                value = v;
            },
            None => {
                proof {
                    lemma_digits_prefix_monotone(d@, i + 1);
                }
                return None;
            },
        }
        i = i + 1;
    }
    assert(d@.subrange(0, n as int) =~= d@);
    Some(value)
}

fn read_unsigned(input: &str) -> (r: Option<u128>)
    ensures
        match unsigned_text(input@) {
            Some(v) => if v <= u128::MAX {
                r == Some(v as u128)
            } else {
                r is None
            },
            None => r is None,
        },
{
    let n = input.unicode_len();
    if n > 0 && input.get_char(0) == '+' {
        let d = input.substring_char(1, n);
        assert(d@ =~= input@.drop_first());
        read_digits(d)
    } else {
        read_digits(input)
    }
}

fn read_signed(input: &str) -> (r: Option<i128>)
    ensures
        match signed_text(input@) {
            Some(v) => if i128::MIN <= v <= i128::MAX {
                r == Some(v as i128)
            } else {
                r is None
            },
            None => r is None,
        },
{
    let n = input.unicode_len();
    if n > 0 && input.get_char(0) == '-' {
        let d = input.substring_char(1, n);
        assert(d@ =~= input@.drop_first());
        match read_digits(d) {
            Some(m) => if m < 0x8000_0000_0000_0000_0000_0000_0000_0000u128 {
                Some(-(m as i128))
            } else if m == 0x8000_0000_0000_0000_0000_0000_0000_0000u128 {
                Some(i128::MIN)
            } else {
                None
            },
            None => None,
        }
    } else {
        match read_unsigned(input) {
            Some(m) => if m <= 0x7fff_ffff_ffff_ffff_ffff_ffff_ffff_ffffu128 {
                Some(m as i128)
            } else {
                None
            },
            None => None,
        }
    }
}

impl CsvField for u8 {
    fn encode_field(&self) -> (r: String)
        ensures
            r@ == decimal(*self as nat),
    {
        render_u128(*self as u128)
    }

    fn decode_field(input: &str) -> (r: Result<u8, CsvDecodeError>)
        ensures
            match within(unsigned_text(input@), 0, u8::MAX as int) {
                Some(v) => r == Ok::<u8, CsvDecodeError>(v as u8),
                None => r matches Err(e) && e@ == (NOT_INTEGER@, None::<usize>),
            },
    {
        match read_unsigned(input) {
            Some(v) => if v <= u8::MAX as u128 {
                Ok(v as u8)
            } else {
                Err(CsvDecodeError::field(NOT_INTEGER))
            },
            None => Err(CsvDecodeError::field(NOT_INTEGER)),
        }
    }
}

impl CsvField for u16 {
    fn encode_field(&self) -> (r: String)
        ensures
            r@ == decimal(*self as nat),
    {
        render_u128(*self as u128)
    }

    fn decode_field(input: &str) -> (r: Result<u16, CsvDecodeError>)
        ensures
            match within(unsigned_text(input@), 0, u16::MAX as int) {
                Some(v) => r == Ok::<u16, CsvDecodeError>(v as u16),
                None => r matches Err(e) && e@ == (NOT_INTEGER@, None::<usize>),
            },
    {
        match read_unsigned(input) {
            Some(v) => if v <= u16::MAX as u128 {
                Ok(v as u16)
            } else {
                Err(CsvDecodeError::field(NOT_INTEGER))
            },
            None => Err(CsvDecodeError::field(NOT_INTEGER)),
        }
    }
}

impl CsvField for u32 {
    fn encode_field(&self) -> (r: String)
        ensures
            r@ == decimal(*self as nat),
    {
        render_u128(*self as u128)
    }

    fn decode_field(input: &str) -> (r: Result<u32, CsvDecodeError>)
        ensures
            match within(unsigned_text(input@), 0, u32::MAX as int) {
                Some(v) => r == Ok::<u32, CsvDecodeError>(v as u32),
                None => r matches Err(e) && e@ == (NOT_INTEGER@, None::<usize>),
            },
    {
        match read_unsigned(input) {
            Some(v) => if v <= u32::MAX as u128 {
                Ok(v as u32)
            } else {
                Err(CsvDecodeError::field(NOT_INTEGER))
            },
            None => Err(CsvDecodeError::field(NOT_INTEGER)),
        }
    }
}

impl CsvField for u64 {
    fn encode_field(&self) -> (r: String)
        ensures
            r@ == decimal(*self as nat),
    {
        render_u128(*self as u128)
    }

    fn decode_field(input: &str) -> (r: Result<u64, CsvDecodeError>)
        ensures
            match within(unsigned_text(input@), 0, u64::MAX as int) {
                Some(v) => r == Ok::<u64, CsvDecodeError>(v as u64),
                None => r matches Err(e) && e@ == (NOT_INTEGER@, None::<usize>),
            },
    {
        match read_unsigned(input) {
            Some(v) => if v <= u64::MAX as u128 {
                Ok(v as u64)
            } else {
                Err(CsvDecodeError::field(NOT_INTEGER))
            },
            None => Err(CsvDecodeError::field(NOT_INTEGER)),
        }
    }
}

impl CsvField for usize {
    fn encode_field(&self) -> (r: String)
        ensures
            r@ == decimal(*self as nat),
    {
        render_u128(*self as u128)
    }

    fn decode_field(input: &str) -> (r: Result<usize, CsvDecodeError>)
        ensures
            match within(unsigned_text(input@), 0, usize::MAX as int) {
                Some(v) => r == Ok::<usize, CsvDecodeError>(v as usize),
                None => r matches Err(e) && e@ == (NOT_INTEGER@, None::<usize>),
            },
    {
        match read_unsigned(input) {
            Some(v) => if v <= usize::MAX as u128 {
                Ok(v as usize)
            } else {
                Err(CsvDecodeError::field(NOT_INTEGER))
            },
            None => Err(CsvDecodeError::field(NOT_INTEGER)),
        }
    }
}

impl CsvField for i8 {
    fn encode_field(&self) -> (r: String)
        ensures
            r@ == signed_decimal(*self as int),
    {
        render_i128(*self as i128)
    }

    fn decode_field(input: &str) -> (r: Result<i8, CsvDecodeError>)
        ensures
            match within(signed_text(input@), i8::MIN as int, i8::MAX as int) {
                Some(v) => r == Ok::<i8, CsvDecodeError>(v as i8),
                None => r matches Err(e) && e@ == (NOT_INTEGER@, None::<usize>),
            },
    {
        match read_signed(input) {
            Some(v) => if i8::MIN as i128 <= v && v <= i8::MAX as i128 {
                Ok(v as i8)
            } else {
                Err(CsvDecodeError::field(NOT_INTEGER))
            },
            None => Err(CsvDecodeError::field(NOT_INTEGER)),
        }
    }
}

impl CsvField for i16 {
    fn encode_field(&self) -> (r: String)
        ensures
            r@ == signed_decimal(*self as int),
    {
        render_i128(*self as i128)
    }

    fn decode_field(input: &str) -> (r: Result<i16, CsvDecodeError>)
        ensures
            match within(signed_text(input@), i16::MIN as int, i16::MAX as int) {
                Some(v) => r == Ok::<i16, CsvDecodeError>(v as i16),
                None => r matches Err(e) && e@ == (NOT_INTEGER@, None::<usize>),
            },
    {
        match read_signed(input) {
            Some(v) => if i16::MIN as i128 <= v && v <= i16::MAX as i128 {
                Ok(v as i16)
            } else {
                Err(CsvDecodeError::field(NOT_INTEGER))
            },
            None => Err(CsvDecodeError::field(NOT_INTEGER)),
        }
    }
}

impl CsvField for i32 {
    fn encode_field(&self) -> (r: String)
        ensures
            r@ == signed_decimal(*self as int),
    {
        render_i128(*self as i128)
    }

    fn decode_field(input: &str) -> (r: Result<i32, CsvDecodeError>)
        ensures
            match within(signed_text(input@), i32::MIN as int, i32::MAX as int) {
                Some(v) => r == Ok::<i32, CsvDecodeError>(v as i32),
                None => r matches Err(e) && e@ == (NOT_INTEGER@, None::<usize>),
            },
    {
        match read_signed(input) {
            Some(v) => if i32::MIN as i128 <= v && v <= i32::MAX as i128 {
                Ok(v as i32)
            } else {
                Err(CsvDecodeError::field(NOT_INTEGER))
            },
            None => Err(CsvDecodeError::field(NOT_INTEGER)),
        }
    }
}

impl CsvField for i64 {
    fn encode_field(&self) -> (r: String)
        ensures
            r@ == signed_decimal(*self as int),
    {
        render_i128(*self as i128)
    }

    fn decode_field(input: &str) -> (r: Result<i64, CsvDecodeError>)
        ensures
            match within(signed_text(input@), i64::MIN as int, i64::MAX as int) {
                Some(v) => r == Ok::<i64, CsvDecodeError>(v as i64),
                None => r matches Err(e) && e@ == (NOT_INTEGER@, None::<usize>),
            },
    {
        match read_signed(input) {
            Some(v) => if i64::MIN as i128 <= v && v <= i64::MAX as i128 {
                Ok(v as i64)
            } else {
                Err(CsvDecodeError::field(NOT_INTEGER))
            },
            None => Err(CsvDecodeError::field(NOT_INTEGER)),
        }
    }
}

impl CsvField for isize {
    fn encode_field(&self) -> (r: String)
        ensures
            r@ == signed_decimal(*self as int),
    {
        render_i128(*self as i128)
    }

    fn decode_field(input: &str) -> (r: Result<isize, CsvDecodeError>)
        ensures
            match within(signed_text(input@), isize::MIN as int, isize::MAX as int) {
                Some(v) => r == Ok::<isize, CsvDecodeError>(v as isize),
                None => r matches Err(e) && e@ == (NOT_INTEGER@, None::<usize>),
            },
    {
        match read_signed(input) {
            Some(v) => if isize::MIN as i128 <= v && v <= isize::MAX as i128 {
                Ok(v as isize)
            } else {
                Err(CsvDecodeError::field(NOT_INTEGER))
            },
            None => Err(CsvDecodeError::field(NOT_INTEGER)),
        }
    }
}

impl CsvField for u128 {
    fn encode_field(&self) -> (r: String)
        ensures
            r@ == decimal(*self as nat),
    {
        render_u128(*self)
    }

    fn decode_field(input: &str) -> (r: Result<u128, CsvDecodeError>)
        ensures
            match within(unsigned_text(input@), 0, u128::MAX as int) {
                Some(v) => r == Ok::<u128, CsvDecodeError>(v as u128),
                None => r matches Err(e) && e@ == (NOT_INTEGER@, None::<usize>),
            },
    {
        match read_unsigned(input) {
            Some(v) => Ok(v),
            None => Err(CsvDecodeError::field(NOT_INTEGER)),
        }
    }
}

impl CsvField for i128 {
    fn encode_field(&self) -> (r: String)
        ensures
            r@ == signed_decimal(*self as int),
    {
        render_i128(*self)
    }

    fn decode_field(input: &str) -> (r: Result<i128, CsvDecodeError>)
        ensures
            match within(signed_text(input@), i128::MIN as int, i128::MAX as int) {
                Some(v) => r == Ok::<i128, CsvDecodeError>(v as i128),
                None => r matches Err(e) && e@ == (NOT_INTEGER@, None::<usize>),
            },
    {
        match read_signed(input) {
            Some(v) => Ok(v),
            None => Err(CsvDecodeError::field(NOT_INTEGER)),
        }
    }
}

/// `char::to_string`: std renders a `char` as the one-character string
/// holding it.
#[verifier::external_body]
fn char_to_string(c: char) -> (s: String)
    ensures
        s@ == seq![c],
{
    c.to_string()
}

/// The text of a boolean field.
pub open spec fn bool_text(b: bool) -> Seq<char> {
    if b {
        "true"@
    } else {
        "false"@
    }
}

/// The boolean a field names: exactly `true` or `false`.
pub open spec fn bool_value(s: Seq<char>) -> Option<bool> {
    if s == "true"@ {
        Some(true)
    } else if s == "false"@ {
        Some(false)
    } else {
        None
    }
}

/// The character a field names: a field of exactly one character.
pub open spec fn char_value(s: Seq<char>) -> Option<char> {
    if s.len() == 1 {
        Some(s[0])
    } else {
        None
    }
}

impl CsvField for bool {
    fn encode_field(&self) -> (r: String)
        ensures
            r@ == bool_text(*self),
    {
        if *self {
            "true".to_owned()
        } else {
            "false".to_owned()
        }
    }

    fn decode_field(input: &str) -> (r: Result<bool, CsvDecodeError>)
        ensures
            match bool_value(input@) {
                Some(b) => r == Ok::<bool, CsvDecodeError>(b),
                None => r matches Err(e) && e@ == (NOT_BOOL@, None::<usize>),
            },
    {
        if str_eq(input, "true") {
            Ok(true)
        } else if str_eq(input, "false") {
            Ok(false)
        } else {
            Err(CsvDecodeError::field(NOT_BOOL))
        }
    }
}

impl CsvField for char {
    fn encode_field(&self) -> (r: String)
        ensures
            r@ == seq![*self],
    {
        char_to_string(*self)
    }

    fn decode_field(input: &str) -> (r: Result<char, CsvDecodeError>)
        ensures
            char_value(input@) matches Some(c) ==> r == Ok::<char, CsvDecodeError>(c),
            input@.len() == 0 ==> (r matches Err(e) && e@ == (EMPTY_FIELD@, None::<usize>)),
            input@.len() > 1 ==> (r matches Err(e) && e@ == (NOT_ONE_CHAR@, None::<usize>)),
    {
        let n = input.unicode_len();
        if n == 0 {
            Err(CsvDecodeError::field(EMPTY_FIELD))
        } else if n == 1 {
            Ok(input.get_char(0))
        } else {
            Err(CsvDecodeError::field(NOT_ONE_CHAR))
        }
    }
}

impl CsvField for String {
    fn encode_field(&self) -> (r: String)
        ensures
            r@ == self@,
    {
        self.as_str().to_owned()
    }

    fn decode_field(input: &str) -> (r: Result<String, CsvDecodeError>)
        ensures
            r matches Ok(s) && s@ == input@,
    {
        Ok(input.to_owned())
    }
}

impl<T: CsvField> CsvField for Option<T> {
    fn encode_field(&self) -> (r: String)
        ensures
            match self {
                Some(v) => call_ensures(T::encode_field, (v,), r),
                None => r@ == Seq::<char>::empty(),
            },
    {
        match self {
            Some(value) => value.encode_field(),
            None => String::new(),
        }
    }

    fn decode_field(input: &str) -> (r: Result<Option<T>, CsvDecodeError>)
        ensures
            input@.len() == 0 ==> r matches Ok(None),
            input@.len() > 0 ==> exists|t: Result<T, CsvDecodeError>|
                #[trigger] call_ensures(T::decode_field, (input,), t) && r == match t {
                    Ok(v) => Ok::<Option<T>, CsvDecodeError>(Some(v)),
                    Err(e) => Err(e),
                },
    {
        if input.unicode_len() == 0 {
            Ok(None)
        } else {
            match T::decode_field(input) {
                Ok(v) => Ok(Some(v)),
                Err(e) => Err(e),
            }
        }
    }
}

proof fn lemma_decimal_digits(n: nat)
    ensures
        decimal(n).len() > 0,
        all_digits(decimal(n)),
        digits_number(decimal(n)) == n,
    decreases n,
{
    let s = decimal(n);
    if n < 10 {
        assert(s.drop_last() =~= Seq::<char>::empty());
    } else {
        lemma_decimal_digits(n / 10);
        assert(s.drop_last() =~= decimal(n / 10));
    }
    let d = n % 10;
    assert(is_digit(digit_char(d)));
    assert((digit_char(d) as u32 - '0' as u32) as nat == d) by {
        if d == 0 {
        } else if d == 1 {
        } else if d == 2 {
        } else if d == 3 {
        } else if d == 4 {
        } else if d == 5 {
        } else if d == 6 {
        } else if d == 7 {
        } else if d == 8 {
        } else {
        }
    }
    assert(s.last() == digit_char(d));
    assert(n / 10 * 10 + n % 10 == n);
    assert(n < 10 ==> n % 10 == n);
    assert(digits_number(s) == digits_number(s.drop_last()) * 10 + d);
}

/// Decoding the text that encoding gives back yields the value again: the
/// decimal text of every integer, the text of every boolean, and every
/// character.
pub proof fn law_field_round_trip(n: nat, v: int, b: bool, c: char)
    ensures
        unsigned_text(decimal(n)) == Some(n as int),
        signed_text(signed_decimal(v)) == Some(v),
        bool_value(bool_text(b)) == Some(b),
        char_value(seq![c]) == Some(c),
{
    reveal_strlit("true");
    reveal_strlit("false");
    assert("true"@.len() != "false"@.len());
    lemma_decimal_digits(n);
    if v < 0 {
        lemma_decimal_digits((-v) as nat);
        assert((seq!['-'] + decimal((-v) as nat)).drop_first() =~= decimal((-v) as nat));
    } else {
        lemma_decimal_digits(v as nat);
    }
}

} // verus!
