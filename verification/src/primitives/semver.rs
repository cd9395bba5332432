//! Semantic versions: `MAJOR.MINOR.PATCH[-PRE][+BUILD]`.

use crate::chars::{
    all_digit_chars, all_digits, digits_number, find, find_char, is_alnum, is_digit,
    lemma_digits_prefix_monotone, lemma_find, str_eq,
};
use crate::decimal::{decimal, render_u128};
use crate::lex::{lex_compare, lex_rank, Rank};
use crate::primitives::error::{PrimitiveError, PrimitiveResult};
use vstd::prelude::*;

pub mod laws;
pub mod order;

verus! {

/// The message for build metadata holding a second `+`.
pub const BUILD_HAS_PLUS: &'static str = "build metadata must not contain '+'";

/// The message for an empty pre-release after `-`.
pub const PRE_EMPTY: &'static str = "pre-release identifier must not be empty after '-'";

/// The message for empty build metadata after `+`.
pub const BUILD_EMPTY: &'static str = "build metadata must not be empty after '+'";

/// The message for an empty dot-separated identifier.
pub const IDENT_EMPTY: &'static str = "semver identifiers must not be empty";

/// The message for an identifier with a character outside `[0-9A-Za-z-]`.
pub const IDENT_CHARS: &'static str = "semver identifiers must contain only ASCII alphanumerics and hyphens";

/// The message for a numeric pre-release identifier with a leading zero.
pub const PRE_LEADING_ZERO: &'static str = "numeric pre-release identifiers must not have leading zeros";

/// The message for an empty version component.
pub const COMPONENT_EMPTY: &'static str = "semver component must not be empty";

/// The message for a version component with a leading zero.
pub const COMPONENT_LEADING_ZERO: &'static str = "semver component must not have leading zeros";

/// The message for a version component that is not a `u64`.
pub const COMPONENT_NOT_NUMBER: &'static str = "semver component must be a non-negative integer";

/// The message for a version core with more than three components.
pub const NOT_THREE_COMPONENTS: &'static str = "semver must have exactly three dot-separated components";

/// The mathematical content of a [`SemVer`].
pub struct SemVerModel {
    pub major: u64,
    pub minor: u64,
    pub patch: u64,
    pub pre: Option<Seq<char>>,
    pub build: Option<Seq<char>>,
}

/// The outcome of checking one dot-separated identifier.
pub open spec fn ident_check(id: Seq<char>, pre: bool) -> Result<(), PrimitiveError> {
    if id.len() == 0 {
        Err(PrimitiveError::Invalid { message: IDENT_EMPTY })
    } else if !(forall|i: int| 0 <= i < id.len() ==> is_alnum(#[trigger] id[i]) || id[i] == '-') {
        Err(PrimitiveError::Invalid { message: IDENT_CHARS })
    } else if pre && all_digits(id) && id.len() > 1 && id[0] == '0' {
        Err(PrimitiveError::Invalid { message: PRE_LEADING_ZERO })
    } else {
        Ok(())
    }
}

/// The outcome of checking every dot-separated identifier of `s`, in order.
pub open spec fn idents_check(s: Seq<char>, pre: bool) -> Result<(), PrimitiveError>
    decreases s.len(),
{
    let k = find(s, '.');
    match ident_check(s.subrange(0, k as int), pre) {
        Err(e) => Err(e),
        Ok(()) => if k >= s.len() {
            Ok(())
        } else {
            idents_check(s.subrange(k + 1int, s.len() as int), pre)
        },
    }
}

/// The outcome of checking a pre-release (`pre`) or build identifier set.
pub open spec fn set_check(s: Seq<char>, pre: bool) -> Result<(), PrimitiveError> {
    if s.len() == 0 {
        Err(PrimitiveError::Invalid { message: if pre { PRE_EMPTY } else { BUILD_EMPTY } })
    } else {
        idents_check(s, pre)
    }
}

/// The `n`-th dot-separated part of `s`, if there are that many.
pub open spec fn part(s: Seq<char>, n: nat) -> Option<Seq<char>>
    decreases s.len(), n,
{
    let k = find(s, '.');
    if n == 0 {
        Some(s.subrange(0, k as int))
    } else if k >= s.len() {
        None
    } else {
        part(s.subrange(k + 1int, s.len() as int), (n - 1) as nat)
    }
}

/// The outcome of reading one version component; a missing part reads as
/// empty.
pub open spec fn component_check(c: Option<Seq<char>>) -> Result<u64, PrimitiveError> {
    let s = match c {
        Some(x) => x,
        None => Seq::empty(),
    };
    if s.len() == 0 {
        Err(PrimitiveError::Invalid { message: COMPONENT_EMPTY })
    } else if s.len() > 1 && s[0] == '0' {
        Err(PrimitiveError::Invalid { message: COMPONENT_LEADING_ZERO })
    } else if !all_digits(s) || digits_number(s) > u64::MAX {
        Err(PrimitiveError::Invalid { message: COMPONENT_NOT_NUMBER })
    } else {
        Ok(digits_number(s) as u64)
    }
}

/// The version core `s` read as three components.
pub open spec fn core_parse(
    s: Seq<char>,
    pre: Option<Seq<char>>,
    build: Option<Seq<char>>,
) -> Result<SemVerModel, PrimitiveError> {
    match component_check(part(s, 0)) {
        Err(e) => Err(e),
        Ok(major) => match component_check(part(s, 1)) {
            Err(e) => Err(e),
            Ok(minor) => match component_check(part(s, 2)) {
                Err(e) => Err(e),
                Ok(patch) => if part(s, 3) is Some {
                    Err(PrimitiveError::Invalid { message: NOT_THREE_COMPONENTS })
                } else {
                    Ok(SemVerModel { major, minor, patch, pre, build })
                },
            },
        },
    }
}

/// The text before the build metadata read as core and pre-release.
pub open spec fn pre_parse(s: Seq<char>, build: Option<Seq<char>>) -> Result<SemVerModel, PrimitiveError> {
    let k = find(s, '-');
    if k < s.len() {
        let p = s.subrange(k + 1int, s.len() as int);
        match set_check(p, true) {
            Err(e) => Err(e),
            Ok(()) => core_parse(s.subrange(0, k as int), Some(p), build),
        }
    } else {
        core_parse(s, None, build)
    }
}

/// The outcome of parsing `s` as a semantic version.
pub open spec fn semver_parse(s: Seq<char>) -> Result<SemVerModel, PrimitiveError> {
    let k = find(s, '+');
    if s.len() == 0 {
        Err(PrimitiveError::Empty)
    } else if k < s.len() {
        let b = s.subrange(k + 1int, s.len() as int);
        if find(b, '+') < b.len() {
            Err(PrimitiveError::Invalid { message: BUILD_HAS_PLUS })
        } else {
            match set_check(b, false) {
                Err(e) => Err(e),
                Ok(()) => pre_parse(s.subrange(0, k as int), Some(b)),
            }
        }
    } else {
        pre_parse(s, None)
    }
}


/// The view of an optional string slice.
pub open spec fn opt_view(o: Option<&str>) -> Option<Seq<char>> {
    match o {
        Some(x) => Some(x@),
        None => None,
    }
}

fn is_ident_char(c: char) -> (b: bool)
    ensures
        b == (is_alnum(c) || c == '-'),
{
    ('0' <= c && c <= '9') || ('a' <= c && c <= 'z') || ('A' <= c && c <= 'Z') || c == '-'
}

fn check_ident(id: &str, pre: bool) -> (r: PrimitiveResult<()>)
    ensures
        r == ident_check(id@, pre),
{
    let n = id.unicode_len();
    if n == 0 {
        return Err(PrimitiveError::Invalid { message: IDENT_EMPTY });
    }
    let mut i: usize = 0;
    while i < n
        invariant
            n == id@.len(),
            i <= n,
            forall|j: int| 0 <= j < i ==> is_alnum(#[trigger] id@[j]) || id@[j] == '-',
        decreases n - i,
    {
        if !is_ident_char(id.get_char(i)) {
            return Err(PrimitiveError::Invalid { message: IDENT_CHARS });
        }
        i = i + 1;
    }
    if pre && all_digit_chars(id) && n > 1 && id.get_char(0) == '0' {
        return Err(PrimitiveError::Invalid { message: PRE_LEADING_ZERO });
    }
    Ok(())
}

fn check_idents(s: &str, pre: bool) -> (r: PrimitiveResult<()>)
    ensures
        r == idents_check(s@, pre),
{
    let mut cur = s;
    loop
        invariant
            idents_check(s@, pre) == idents_check(cur@, pre),
        decreases cur@.len(),
    {
        let n = cur.unicode_len();
        let k = find_char(cur, '.');
        proof {
            lemma_find(cur@, '.');
        }
        let first = cur.substring_char(0, k);
        match check_ident(first, pre) {
            Err(e) => {
                return Err(e);
            },
            Ok(()) => {},
        }
        if k >= n {
            return Ok(());
        }
        cur = cur.substring_char(k + 1, n);
    }
}

fn check_set(s: &str, pre: bool) -> (r: PrimitiveResult<()>)
    ensures
        r == set_check(s@, pre),
{
    if s.unicode_len() == 0 {
        return Err(
            PrimitiveError::Invalid { message: if pre { PRE_EMPTY } else { BUILD_EMPTY } },
        );
    }
    check_idents(s, pre)
}

fn part_of(s: &str, n: usize) -> (r: Option<&str>)
    ensures
        opt_view(r) == part(s@, n as nat),
{
    let mut cur = s;
    let mut left = n;
    loop
        invariant
            part(s@, n as nat) == part(cur@, left as nat),
        decreases cur@.len(),
    {
        let len = cur.unicode_len();
        let k = find_char(cur, '.');
        proof {
            lemma_find(cur@, '.');
        }
        if left == 0 {
            return Some(cur.substring_char(0, k));
        }
        if k >= len {
            return None;
        }
        cur = cur.substring_char(k + 1, len);
        left = left - 1;
    }
}

fn read_component(c: Option<&str>) -> (r: PrimitiveResult<u64>)
    ensures
        r == component_check(opt_view(c)),
{
    let s = match c {
        Some(x) => x,
        None => "",
    };
    proof {
        reveal_strlit("");
    }
    assert(component_check(opt_view(c)) == component_check(Some(s@)));
    let n = s.unicode_len();
    if n == 0 {
        return Err(PrimitiveError::Invalid { message: COMPONENT_EMPTY });
    }
    if n > 1 && s.get_char(0) == '0' {
        return Err(PrimitiveError::Invalid { message: COMPONENT_LEADING_ZERO });
    }
    if !all_digit_chars(s) {
        return Err(PrimitiveError::Invalid { message: COMPONENT_NOT_NUMBER });
    }
    let mut value: u64 = 0;
    let mut i: usize = 0;
    while i < n
        invariant
            n == s@.len(),
            n > 0,
            !(n > 1 && s@[0] == '0'),
            component_check(opt_view(c)) == component_check(Some(s@)),
            i <= n,
            all_digits(s@),
            value == digits_number(s@.subrange(0, i as int)),
        decreases n - i,
    {
        let c = s.get_char(i);
        assert(is_digit(s@[i as int]));
        let d = (c as u32 - '0' as u32) as u64;
        assert(s@.subrange(0, i + 1).drop_last() =~= s@.subrange(0, i as int));
        assert(s@.subrange(0, i + 1).last() == c);
        assert(digits_number(s@.subrange(0, i + 1)) == value * 10 + d);
        let next = match value.checked_mul(10) {
            Some(t) => t.checked_add(d),
            None => None,
        };
        match next {
            Some(v) => {
                value = v;
            },
            None => {
                proof {
                    lemma_digits_prefix_monotone(s@, i + 1);
                    assert(digits_number(s@) > u64::MAX);
                }
                return Err(PrimitiveError::Invalid { message: COMPONENT_NOT_NUMBER });
            },
        }
        i = i + 1;
    }
    assert(s@.subrange(0, n as int) =~= s@);
    Ok(value)
}


fn parse_core(
    s: &str,
    pre: Option<String>,
    build: Option<String>,
) -> (r: PrimitiveResult<SemVer>)
    ensures
        match (r, core_parse(s@, opt_string_view(pre), opt_string_view(build))) {
            (Ok(v), Ok(m)) => v@ == m,
            (Err(e), Err(f)) => e == f,
            _ => false,
        },
{
    let major = match read_component(part_of(s, 0)) {
        Ok(v) => v,
        Err(e) => {
            return Err(e);
        },
    };
    let minor = match read_component(part_of(s, 1)) {
        Ok(v) => v,
        Err(e) => {
            return Err(e);
        },
    };
    let patch = match read_component(part_of(s, 2)) {
        Ok(v) => v,
        Err(e) => {
            return Err(e);
        },
    };
    if part_of(s, 3).is_some() {
        return Err(PrimitiveError::Invalid { message: NOT_THREE_COMPONENTS });
    }
    Ok(SemVer { major, minor, patch, pre, build })
}

fn parse_pre(s: &str, build: Option<String>) -> (r: PrimitiveResult<SemVer>)
    ensures
        match (r, pre_parse(s@, opt_string_view(build))) {
            (Ok(v), Ok(m)) => v@ == m,
            (Err(e), Err(f)) => e == f,
            _ => false,
        },
{
    let n = s.unicode_len();
    let k = find_char(s, '-');
    if k < n {
        let p = s.substring_char(k + 1, n);
        match check_set(p, true) {
            Err(e) => {
                return Err(e);
            },
            Ok(()) => {},
        }
        parse_core(s.substring_char(0, k), Some(p.to_owned()), build)
    } else {
        parse_core(s, None, build)
    }
}

/// The view of an optional owned string.
pub open spec fn opt_string_view(o: Option<String>) -> Option<Seq<char>> {
    match o {
        Some(x) => Some(x@),
        None => None,
    }
}

fn opt_str(o: &Option<String>) -> (r: Option<&str>)
    ensures
        opt_view(r) == opt_string_view(*o),
{
    match o {
        Some(x) => Some(x.as_str()),
        None => None,
    }
}

fn opt_str_eq(a: &Option<String>, b: &Option<String>) -> (r: bool)
    ensures
        r == (opt_string_view(*a) == opt_string_view(*b)),
{
    match (a, b) {
        (Some(x), Some(y)) => str_eq(x.as_str(), y.as_str()),
        (None, None) => true,
        _ => false,
    }
}

/// Semantic version `MAJOR.MINOR.PATCH` with optional pre-release and build
/// metadata identifiers.
#[derive(Debug, Clone, PartialEq, Eq, Hash)]
pub struct SemVer {
    major: u64,
    minor: u64,
    patch: u64,
    pre: Option<String>,
    build: Option<String>,
}

impl View for SemVer {
    type V = SemVerModel;

    closed spec fn view(&self) -> SemVerModel {
        SemVerModel {
            major: self.major,
            minor: self.minor,
            patch: self.patch,
            pre: opt_string_view(self.pre),
            build: opt_string_view(self.build),
        }
    }
}

/// The text of a version: `MAJOR.MINOR.PATCH`, then `-PRE` and `+BUILD` when
/// present.
pub open spec fn semver_text(v: SemVerModel) -> Seq<char> {
    decimal(v.major as nat) + seq!['.'] + decimal(v.minor as nat) + seq!['.'] + decimal(
        v.patch as nat,
    ) + match v.pre {
        Some(p) => seq!['-'] + p,
        None => Seq::empty(),
    } + match v.build {
        Some(b) => seq!['+'] + b,
        None => Seq::empty(),
    }
}

impl SemVer {
    /// Creates a version with no pre-release or build metadata.
    pub fn new(major: u64, minor: u64, patch: u64) -> (v: SemVer)
        ensures
            v@ == (SemVerModel { major, minor, patch, pre: None, build: None }),
    {
        SemVer { major, minor, patch, pre: None, build: None }
    }

    /// Parses a version. Build metadata follows the first `+`, a pre-release
    /// follows the first `-` before it, and the core must be exactly three
    /// dot-separated decimal numbers without leading zeros.
    pub fn parse(s: &str) -> (r: PrimitiveResult<SemVer>)
        ensures
            match (r, semver_parse(s@)) {
                (Ok(v), Ok(m)) => v@ == m,
                (Err(e), Err(f)) => e == f,
                _ => false,
            },
    {
        let n = s.unicode_len();
        if n == 0 {
            return Err(PrimitiveError::Empty);
        }
        let k = find_char(s, '+');
        if k < n {
            let b = s.substring_char(k + 1, n);
            if find_char(b, '+') < b.unicode_len() {
                return Err(PrimitiveError::Invalid { message: BUILD_HAS_PLUS });
            }
            match check_set(b, false) {
                Err(e) => {
                    return Err(e);
                },
                Ok(()) => {},
            }
            parse_pre(s.substring_char(0, k), Some(b.to_owned()))
        } else {
            parse_pre(s, None)
        }
    }

    /// Returns the major version component.
    pub fn major(&self) -> (v: u64)
        ensures
            v == self@.major,
    {
        self.major
    }

    /// Returns the minor version component.
    pub fn minor(&self) -> (v: u64)
        ensures
            v == self@.minor,
    {
        self.minor
    }

    /// Returns the patch version component.
    pub fn patch(&self) -> (v: u64)
        ensures
            v == self@.patch,
    {
        self.patch
    }

    /// Returns the pre-release identifiers, if present.
    pub fn pre(&self) -> (p: Option<&str>)
        ensures
            opt_view(p) == self@.pre,
    {
        opt_str(&self.pre)
    }

    /// Returns the build metadata, if present.
    pub fn build(&self) -> (b: Option<&str>)
        ensures
            opt_view(b) == self@.build,
    {
        opt_str(&self.build)
    }

    /// Returns `true` if this is a pre-release version.
    pub fn is_pre_release(&self) -> (b: bool)
        ensures
            b == (self@.pre is Some),
    {
        self.pre.is_some()
    }

    /// Whether two versions have the same components, pre-release and build.
    pub fn same_as(&self, other: &SemVer) -> (b: bool)
        ensures
            b == (self@ == other@),
    {
        self.major == other.major && self.minor == other.minor && self.patch == other.patch
            && opt_str_eq(&self.pre, &other.pre) && opt_str_eq(&self.build, &other.build)
    }

    /// Renders `MAJOR.MINOR.PATCH[-PRE][+BUILD]`.
    pub fn to_string(&self) -> (text: String)
        ensures
            text@ == semver_text(self@),
    {
        proof {
            reveal_strlit(".");
            reveal_strlit("-");
            reveal_strlit("+");
        }
        let mut out = render_u128(self.major as u128);
        out.append(".");
        out.append(render_u128(self.minor as u128).as_str());
        out.append(".");
        out.append(render_u128(self.patch as u128).as_str());
        match &self.pre {
            Some(p) => {
                out.append("-");
                out.append(p.as_str());
            },
            None => {},
        }
        match &self.build {
            Some(b) => {
                out.append("+");
                out.append(b.as_str());
            },
            None => {},
        }
        assert(out@ =~= semver_text(self@));
        out
    }
}

impl core::str::FromStr for SemVer {
    type Err = PrimitiveError;

    fn from_str(s: &str) -> (r: Result<SemVer, PrimitiveError>)
        ensures
            match (r, semver_parse(s@)) {
                (Ok(v), Ok(m)) => v@ == m,
                (Err(e), Err(f)) => e == f,
                _ => false,
            },
    {
        SemVer::parse(s)
    }
}

impl PartialEq<str> for SemVer {
    fn eq(&self, other: &str) -> (r: bool) {
        match SemVer::parse(other) {
            Ok(v) => self.same_as(&v),
            Err(_) => false,
        }
    }
}

impl vstd::std_specs::cmp::PartialEqSpecImpl<str> for SemVer {
    open spec fn obeys_eq_spec() -> bool {
        true
    }

    open spec fn eq_spec(&self, other: &str) -> bool {
        semver_parse(other@) matches Ok(m) && m == self@
    }
}

impl<'a> PartialEq<&'a str> for SemVer {
    fn eq(&self, other: &&'a str) -> (r: bool) {
        match SemVer::parse(*other) {
            Ok(v) => self.same_as(&v),
            Err(_) => false,
        }
    }
}

impl<'a> vstd::std_specs::cmp::PartialEqSpecImpl<&'a str> for SemVer {
    open spec fn obeys_eq_spec() -> bool {
        true
    }

    open spec fn eq_spec(&self, other: &&'a str) -> bool {
        semver_parse((*other)@) matches Ok(m) && m == self@
    }
}

impl PartialEq<String> for SemVer {
    fn eq(&self, other: &String) -> (r: bool) {
        match SemVer::parse(other.as_str()) {
            Ok(v) => self.same_as(&v),
            Err(_) => false,
        }
    }
}

impl vstd::std_specs::cmp::PartialEqSpecImpl<String> for SemVer {
    open spec fn obeys_eq_spec() -> bool {
        true
    }

    open spec fn eq_spec(&self, other: &String) -> bool {
        semver_parse(other@) matches Ok(m) && m == self@
    }
}

impl<'a> PartialEq<&'a String> for SemVer {
    fn eq(&self, other: &&'a String) -> (r: bool) {
        match SemVer::parse(other.as_str()) {
            Ok(v) => self.same_as(&v),
            Err(_) => false,
        }
    }
}

impl<'a> vstd::std_specs::cmp::PartialEqSpecImpl<&'a String> for SemVer {
    open spec fn obeys_eq_spec() -> bool {
        true
    }

    open spec fn eq_spec(&self, other: &&'a String) -> bool {
        semver_parse((*other)@) matches Ok(m) && m == self@
    }
}


/// Comparison of two pre-release identifiers: numeric ones by value (a longer
/// one without leading zeros is larger), numeric below alphanumeric, and
/// alphanumeric ones lexicographically.
pub open spec fn ident_rank(x: Seq<char>, y: Seq<char>) -> Rank {
    if all_digits(x) && all_digits(y) {
        if x.len() < y.len() {
            Rank::Less
        } else if y.len() < x.len() {
            Rank::Greater
        } else {
            lex_rank(x, y)
        }
    } else if all_digits(x) {
        Rank::Less
    } else if all_digits(y) {
        Rank::Greater
    } else {
        lex_rank(x, y)
    }
}

/// The text before the first `.`, or all of it.
pub open spec fn ident_head(s: Seq<char>) -> Seq<char> {
    s.subrange(0, find(s, '.') as int)
}

/// The text after the first `.`, if there is one.
pub open spec fn ident_rest(s: Seq<char>) -> Option<Seq<char>> {
    if find(s, '.') < s.len() {
        Some(s.subrange(find(s, '.') + 1int, s.len() as int))
    } else {
        None
    }
}

/// Comparison of two dot-separated pre-release strings: identifier by
/// identifier, and where all shared ones are equal, the one with more
/// identifiers ranks higher.
pub open spec fn pre_rank(a: Seq<char>, b: Seq<char>) -> Rank
    decreases a.len(),
{
    match ident_rank(ident_head(a), ident_head(b)) {
        Rank::Equal => match (ident_rest(a), ident_rest(b)) {
            (Some(x), Some(y)) => pre_rank(x, y),
            (Some(_), None) => Rank::Greater,
            (None, Some(_)) => Rank::Less,
            (None, None) => Rank::Equal,
        },
        r => r,
    }
}

/// Comparison of two numbers.
pub open spec fn num_rank(a: u64, b: u64) -> Rank {
    if a < b {
        Rank::Less
    } else if b < a {
        Rank::Greater
    } else {
        Rank::Equal
    }
}

/// Version precedence: the core numbers in order, then a pre-release below
/// the release of the same core, then the pre-release strings. Build metadata
/// takes no part.
pub open spec fn precedence(a: SemVerModel, b: SemVerModel) -> Rank {
    if a.major != b.major {
        num_rank(a.major, b.major)
    } else if a.minor != b.minor {
        num_rank(a.minor, b.minor)
    } else if a.patch != b.patch {
        num_rank(a.patch, b.patch)
    } else {
        match (a.pre, b.pre) {
            (None, None) => Rank::Equal,
            (Some(_), None) => Rank::Less,
            (None, Some(_)) => Rank::Greater,
            (Some(x), Some(y)) => pre_rank(x, y),
        }
    }
}

/// The total order of versions: precedence, then build metadata, absent below
/// present and present ones lexicographically.
pub open spec fn version_rank(a: SemVerModel, b: SemVerModel) -> Rank {
    match precedence(a, b) {
        Rank::Equal => match (a.build, b.build) {
            (None, None) => Rank::Equal,
            (None, Some(_)) => Rank::Less,
            (Some(_), None) => Rank::Greater,
            (Some(x), Some(y)) => lex_rank(x, y),
        },
        r => r,
    }
}

fn ident_compare(x: &str, y: &str) -> (r: Rank)
    ensures
        r == ident_rank(x@, y@),
{
    let xn = all_digit_chars(x);
    let yn = all_digit_chars(y);
    if xn && yn {
        let lx = x.unicode_len();
        let ly = y.unicode_len();
        if lx < ly {
            Rank::Less
        } else if ly < lx {
            Rank::Greater
        } else {
            lex_compare(x, y)
        }
    } else if xn {
        Rank::Less
    } else if yn {
        Rank::Greater
    } else {
        lex_compare(x, y)
    }
}

fn split_ident(s: &str) -> (r: (&str, Option<&str>))
    ensures
        r.0@ == ident_head(s@),
        opt_view(r.1) == ident_rest(s@),
        r.1 matches Some(t) ==> t@.len() < s@.len(),
{
    proof {
        lemma_find(s@, '.');
    }
    let k = find_char(s, '.');
    let n = s.unicode_len();
    let head = s.substring_char(0, k);
    if k < n {
        (head, Some(s.substring_char(k + 1, n)))
    } else {
        (head, None)
    }
}

fn pre_compare(a: &str, b: &str) -> (r: Rank)
    ensures
        r == pre_rank(a@, b@),
    decreases a@.len(),
{
    let (ha, ra) = split_ident(a);
    let (hb, rb) = split_ident(b);
    match ident_compare(ha, hb) {
        Rank::Equal => match (ra, rb) {
            (Some(x), Some(y)) => pre_compare(x, y),
            (Some(_), None) => Rank::Greater,
            (None, Some(_)) => Rank::Less,
            (None, None) => Rank::Equal,
        },
        r => r,
    }
}

fn num_compare(a: u64, b: u64) -> (r: Rank)
    ensures
        r == num_rank(a, b),
{
    if a < b {
        Rank::Less
    } else if b < a {
        Rank::Greater
    } else {
        Rank::Equal
    }
}

impl SemVer {
    /// Version precedence, build metadata aside.
    pub fn precedence_rank(&self, other: &SemVer) -> (r: Rank)
        ensures
            r == precedence(self@, other@),
    {
        if self.major != other.major {
            num_compare(self.major, other.major)
        } else if self.minor != other.minor {
            num_compare(self.minor, other.minor)
        } else if self.patch != other.patch {
            num_compare(self.patch, other.patch)
        } else {
            match (&self.pre, &other.pre) {
                (None, None) => Rank::Equal,
                (Some(_), None) => Rank::Less,
                (None, Some(_)) => Rank::Greater,
                (Some(x), Some(y)) => pre_compare(x.as_str(), y.as_str()),
            }
        }
    }

    /// The total order: precedence, then build metadata.
    pub fn version_rank(&self, other: &SemVer) -> (r: Rank)
        ensures
            r == version_rank(self@, other@),
    {
        match self.precedence_rank(other) {
            Rank::Equal => match (&self.build, &other.build) {
                (None, None) => Rank::Equal,
                (None, Some(_)) => Rank::Less,
                (Some(_), None) => Rank::Greater,
                (Some(x), Some(y)) => lex_compare(x.as_str(), y.as_str()),
            },
            r => r,
        }
    }
}

} // verus!
