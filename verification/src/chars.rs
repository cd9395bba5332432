//! Character classes and whole-string character checks.

use vstd::prelude::*;

verus! {

/// Unicode `White_Space`, as `char::is_whitespace` defines it.
pub open spec fn is_ws(c: char) -> bool {
    let u = c as u32;
    ||| 0x9 <= u <= 0xD
    ||| u == 0x20
    ||| u == 0x85
    ||| u == 0xA0
    ||| u == 0x1680
    ||| 0x2000 <= u <= 0x200A
    ||| u == 0x2028
    ||| u == 0x2029
    ||| u == 0x202F
    ||| u == 0x205F
    ||| u == 0x3000
}

/// Whether `c` is whitespace (Unicode `White_Space`).
pub fn char_is_ws(c: char) -> (b: bool)
    ensures
        b == is_ws(c),
{
    let u = c as u32;
    (0x9 <= u && u <= 0xD) || u == 0x20 || u == 0x85 || u == 0xA0 || u == 0x1680 || (0x2000 <= u
        && u <= 0x200A) || u == 0x2028 || u == 0x2029 || u == 0x202F || u == 0x205F || u == 0x3000
}

/// Every character of `s` is whitespace (so `s.trim()` is empty).
pub open spec fn all_ws(s: Seq<char>) -> bool {
    forall|i: int| 0 <= i < s.len() ==> #[trigger] is_ws(s[i])
}

/// Some character of `s` is whitespace.
pub open spec fn any_ws(s: Seq<char>) -> bool {
    exists|i: int| 0 <= i < s.len() && #[trigger] is_ws(s[i])
}

/// Whether `s` is empty or holds only whitespace.
pub fn is_blank(s: &str) -> (b: bool)
    ensures
        b == all_ws(s@),
{
    let n = s.unicode_len();
    let mut i: usize = 0;
    while i < n
        invariant
            n == s@.len(),
            i <= n,
            forall|j: int| 0 <= j < i ==> #[trigger] is_ws(s@[j]),
        decreases n - i,
    {
        if !char_is_ws(s.get_char(i)) {
            return false;
        }
        i = i + 1;
    }
    true
}

/// Whether `s` holds a whitespace character.
pub fn has_ws(s: &str) -> (b: bool)
    ensures
        b == any_ws(s@),
{
    let n = s.unicode_len();
    let mut i: usize = 0;
    while i < n
        invariant
            n == s@.len(),
            i <= n,
            forall|j: int| 0 <= j < i ==> !#[trigger] is_ws(s@[j]),
        decreases n - i,
    {
        if char_is_ws(s.get_char(i)) {
            return true;
        }
        i = i + 1;
    }
    false
}

/// An ASCII decimal digit.
pub open spec fn is_digit(c: char) -> bool {
    '0' <= c <= '9'
}

/// An ASCII lowercase letter.
pub open spec fn is_lower(c: char) -> bool {
    'a' <= c <= 'z'
}

/// An ASCII uppercase letter.
pub open spec fn is_upper(c: char) -> bool {
    'A' <= c <= 'Z'
}

/// An ASCII letter or digit.
pub open spec fn is_alnum(c: char) -> bool {
    is_digit(c) || is_lower(c) || is_upper(c)
}

/// An ASCII hexadecimal digit, either case.
pub open spec fn is_hex(c: char) -> bool {
    is_digit(c) || 'a' <= c <= 'f' || 'A' <= c <= 'F'
}



/// Whether two strings hold the same characters.
pub fn str_eq(a: &str, b: &str) -> (r: bool)
    ensures
        r == (a@ == b@),
{
    let n = a.unicode_len();
    if n != b.unicode_len() {
        return false;
    }
    let mut i: usize = 0;
    while i < n
        invariant
            n == a@.len(),
            n == b@.len(),
            i <= n,
            forall|j: int| 0 <= j < i ==> a@[j] == b@[j],
        decreases n - i,
    {
        if a.get_char(i) != b.get_char(i) {
            return false;
        }
        i = i + 1;
    }
    assert(a@ =~= b@);
    true
}

/// The number of times `c` occurs in `s`.
pub open spec fn count_of(s: Seq<char>, c: char) -> nat
    decreases s.len(),
{
    if s.len() == 0 {
        0
    } else {
        count_of(s.drop_last(), c) + if s.last() == c { 1nat } else { 0nat }
    }
}

/// The index of the first `c` in `s`, or `s.len()` when there is none.
pub open spec fn find(s: Seq<char>, c: char) -> nat
    decreases s.len(),
{
    if s.len() == 0 {
        0
    } else if s[0] == c {
        0
    } else {
        1 + find(s.drop_first(), c)
    }
}

/// `find` is the position of the first occurrence, or the length.
pub proof fn lemma_find(s: Seq<char>, c: char)
    ensures
        find(s, c) <= s.len(),
        forall|i: int| 0 <= i < find(s, c) ==> s[i] != c,
        find(s, c) < s.len() ==> s[find(s, c) as int] == c,
    decreases s.len(),
{
    if s.len() > 0 && s[0] != c {
        lemma_find(s.drop_first(), c);
        assert forall|i: int| 0 <= i < find(s, c) implies s[i] != c by {
            if i > 0 {
                assert(s[i] == s.drop_first()[i - 1]);
            }
        }
    }
}

/// The first index of `c` in `s`, or the length when absent.
pub fn find_char(s: &str, c: char) -> (r: usize)
    ensures
        r == find(s@, c),
{
    let n = s.unicode_len();
    let mut i: usize = 0;
    proof {
        lemma_find(s@, c);
    }
    while i < n
        invariant
            n == s@.len(),
            i <= n,
            forall|j: int| 0 <= j < i ==> s@[j] != c,
            find(s@, c) <= s@.len(),
            forall|j: int| 0 <= j < find(s@, c) ==> s@[j] != c,
            find(s@, c) < s@.len() ==> s@[find(s@, c) as int] == c,
        decreases n - i,
    {
        if s.get_char(i) == c {
            return i;
        }
        i = i + 1;
    }
    i
}


/// A character that ends the host part of a URL.
pub open spec fn is_host_end(c: char) -> bool {
    c == '/' || c == '?' || c == '#'
}

/// The index of the first character that ends a URL host, or the length.
pub open spec fn find_host_end(s: Seq<char>) -> nat
    decreases s.len(),
{
    if s.len() == 0 {
        0
    } else if is_host_end(s[0]) {
        0
    } else {
        1 + find_host_end(s.drop_first())
    }
}

pub proof fn lemma_find_host_end(s: Seq<char>)
    ensures
        find_host_end(s) <= s.len(),
        forall|i: int| 0 <= i < find_host_end(s) ==> !is_host_end(s[i]),
        find_host_end(s) < s.len() ==> is_host_end(s[find_host_end(s) as int]),
    decreases s.len(),
{
    if s.len() > 0 && !is_host_end(s[0]) {
        lemma_find_host_end(s.drop_first());
        assert forall|i: int| 0 <= i < find_host_end(s) implies !is_host_end(s[i]) by {
            if i > 0 {
                assert(s[i] == s.drop_first()[i - 1]);
            }
        }
    }
}

/// ASCII lowercase of `c`; other characters are unchanged.
pub open spec fn ascii_lower(c: char) -> char {
    if is_upper(c) {
        ((c as u32) + 32) as char
    } else {
        c
    }
}

/// ASCII lowercase of a character.
pub fn to_ascii_lower(c: char) -> (r: char)
    ensures
        r == ascii_lower(c),
{
    if 'A' <= c && c <= 'Z' {
        ((c as u8) + 32) as char
    } else {
        c
    }
}

/// `s` starts with `prefix`, comparing ASCII letters case-insensitively;
/// `prefix` is lowercase.
pub open spec fn starts_with_ci(s: Seq<char>, prefix: Seq<char>) -> bool {
    &&& s.len() >= prefix.len()
    &&& forall|i: int| 0 <= i < prefix.len() ==> ascii_lower(#[trigger] s[i]) == prefix[i]
}

/// Whether `s` starts with the lowercase `prefix`, ignoring ASCII case.
pub fn has_prefix_ci(s: &str, prefix: &str) -> (r: bool)
    ensures
        r == starts_with_ci(s@, prefix@),
{
    let n = prefix.unicode_len();
    if s.unicode_len() < n {
        return false;
    }
    let mut i: usize = 0;
    while i < n
        invariant
            n == prefix@.len(),
            n <= s@.len(),
            i <= n,
            forall|j: int| 0 <= j < i ==> ascii_lower(#[trigger] s@[j]) == prefix@[j],
        decreases n - i,
    {
        if to_ascii_lower(s.get_char(i)) != prefix.get_char(i) {
            return false;
        }
        i = i + 1;
    }
    true
}

/// The index in `s` of the first host-ending character at or after `from`,
/// or the length.
pub fn find_host_end_from(s: &str, from: usize) -> (r: usize)
    requires
        from <= s@.len(),
    ensures
        r == from + find_host_end(s@.subrange(from as int, s@.len() as int)),
        from <= r <= s@.len(),
{
    let ghost rest = s@.subrange(from as int, s@.len() as int);
    proof {
        lemma_find_host_end(rest);
    }
    let n = s.unicode_len();
    let mut i: usize = from;
    while i < n
        invariant
            n == s@.len(),
            from <= i <= n,
            rest == s@.subrange(from as int, s@.len() as int),
            forall|j: int| from <= j < i ==> !is_host_end(s@[j]),
            find_host_end(rest) <= rest.len(),
            forall|j: int| 0 <= j < find_host_end(rest) ==> !is_host_end(rest[j]),
            find_host_end(rest) < rest.len() ==> is_host_end(rest[find_host_end(rest) as int]),
        decreases n - i,
    {
        let c = s.get_char(i);
        if c == '/' || c == '?' || c == '#' {
            proof {
                assert(rest[i - from] == c);
                if find_host_end(rest) < i - from {
                    assert(rest[find_host_end(rest) as int] == s@[from + find_host_end(rest)]);
                }
            }
            return i;
        }
        i = i + 1;
    }
    proof {
        if find_host_end(rest) < rest.len() {
            assert(rest[find_host_end(rest) as int] == s@[from + find_host_end(rest)]);
        }
    }
    i
}

/// Whether every character of `s` from index `from` on is whitespace.
pub fn is_blank_range(s: &str, from: usize, to: usize) -> (b: bool)
    requires
        from <= to <= s@.len(),
    ensures
        b == all_ws(s@.subrange(from as int, to as int)),
{
    let mut i: usize = from;
    while i < to
        invariant
            from <= i <= to,
            to <= s@.len(),
            forall|j: int| from <= j < i ==> #[trigger] is_ws(s@[j]),
        decreases to - i,
    {
        if !char_is_ws(s.get_char(i)) {
            assert(s@.subrange(from as int, to as int)[i - from] == s@[i as int]);
            return false;
        }
        i = i + 1;
    }
    assert forall|j: int| 0 <= j < to - from implies #[trigger] is_ws(s@.subrange(from as int, to as int)[j]) by {
        assert(s@.subrange(from as int, to as int)[j] == s@[from + j]);
    }
    true
}


/// Whether some character of `s` in `from..to` is whitespace.
pub fn has_ws_range(s: &str, from: usize, to: usize) -> (b: bool)
    requires
        from <= to <= s@.len(),
    ensures
        b == any_ws(s@.subrange(from as int, to as int)),
{
    let mut i: usize = from;
    while i < to
        invariant
            from <= i <= to,
            to <= s@.len(),
            forall|j: int| from <= j < i ==> !#[trigger] is_ws(s@[j]),
        decreases to - i,
    {
        if char_is_ws(s.get_char(i)) {
            assert(s@.subrange(from as int, to as int)[i - from] == s@[i as int]);
            return true;
        }
        i = i + 1;
    }
    assert forall|j: int| 0 <= j < to - from implies !#[trigger] is_ws(s@.subrange(from as int, to as int)[j]) by {
        assert(s@.subrange(from as int, to as int)[j] == s@[from + j]);
    }
    false
}

/// All characters of `s` are ASCII digits.
pub open spec fn all_digits(s: Seq<char>) -> bool {
    forall|i: int| 0 <= i < s.len() ==> is_digit(#[trigger] s[i])
}

/// The decimal value of the digit characters `s`.
pub open spec fn digits_number(s: Seq<char>) -> nat
    decreases s.len(),
{
    if s.len() == 0 {
        0
    } else {
        digits_number(s.drop_last()) * 10 + (s.last() as u32 - '0' as u32) as nat
    }
}

/// The value of a prefix of a digit string is at most that of the whole.
pub proof fn lemma_digits_prefix_monotone(s: Seq<char>, i: int)
    requires
        0 <= i <= s.len(),
        all_digits(s),
    ensures
        digits_number(s.subrange(0, i)) <= digits_number(s),
    decreases s.len() - i,
{
    if i < s.len() {
        lemma_digits_prefix_monotone(s, i + 1);
        assert(s.subrange(0, i + 1).drop_last() =~= s.subrange(0, i));
        assert(is_digit(s[i]));
    }
    if i == s.len() {
        assert(s.subrange(0, i) =~= s);
    }
}

/// Whether every character of `s` is an ASCII digit.
pub fn all_digit_chars(s: &str) -> (b: bool)
    ensures
        b == all_digits(s@),
{
    let n = s.unicode_len();
    let mut i: usize = 0;
    while i < n
        invariant
            n == s@.len(),
            i <= n,
            forall|j: int| 0 <= j < i ==> is_digit(#[trigger] s@[j]),
        decreases n - i,
    {
        let c = s.get_char(i);
        if !('0' <= c && c <= '9') {
            return false;
        }
        i = i + 1;
    }
    true
}

} // verus!
