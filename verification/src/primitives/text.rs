//! Validated text primitives: slugs, email addresses, HTTP URLs and hex
//! strings.

use crate::chars::{
    all_ws, any_ws, find, find_char, find_host_end, find_host_end_from,
    has_prefix_ci, has_ws, has_ws_range, is_blank_range, is_digit, is_hex, is_lower, lemma_find,
    starts_with_ci, str_eq,
};
use crate::primitives::error::{PrimitiveError, PrimitiveResult};
use vstd::prelude::*;

verus! {

/// The message for a value that breaks the slug rules.
pub const SLUG_INVALID: &'static str = "slug must be lowercase alphanumeric with hyphens, must not start or end with a hyphen, and must not contain consecutive hyphens";

/// A character allowed in a slug.
pub open spec fn is_slug_char(c: char) -> bool {
    is_lower(c) || is_digit(c) || c == '-'
}

/// The slug rules: only `[a-z0-9-]`, no leading or trailing hyphen, and no two
/// hyphens in a row.
pub open spec fn is_slug(s: Seq<char>) -> bool {
    &&& s.len() > 0 ==> s[0] != '-' && s.last() != '-'
    &&& forall|i: int| 0 <= i < s.len() ==> is_slug_char(#[trigger] s[i])
    &&& forall|i: int| 0 < i < s.len() ==> !(#[trigger] s[i] == '-' && s[i - 1] == '-')
}

/// The outcome of validating `s` as a slug.
pub open spec fn slug_check(s: Seq<char>) -> Result<(), PrimitiveError> {
    if s.len() == 0 {
        Err(PrimitiveError::Empty)
    } else if !is_slug(s) {
        Err(PrimitiveError::Invalid { message: SLUG_INVALID })
    } else {
        Ok(())
    }
}

fn check_slug(value: &str) -> (r: PrimitiveResult<()>)
    ensures
        r == slug_check(value@),
{
    let n = value.unicode_len();
    if n == 0 {
        return Err(PrimitiveError::Empty);
    }
    if value.get_char(0) == '-' || value.get_char(n - 1) == '-' {
        return Err(PrimitiveError::Invalid { message: SLUG_INVALID });
    }
    let mut prev = ' ';
    let mut i: usize = 0;
    while i < n
        invariant
            n == value@.len(),
            i <= n,
            forall|j: int| 0 <= j < i ==> is_slug_char(#[trigger] value@[j]),
            forall|j: int| 0 < j < i ==> !(#[trigger] value@[j] == '-' && value@[j - 1] == '-'),
            i > 0 ==> prev == value@[i - 1],
            i == 0 ==> prev == ' ',
        decreases n - i,
    {
        let c = value.get_char(i);
        if !(('a' <= c && c <= 'z') || ('0' <= c && c <= '9') || c == '-') {
            return Err(PrimitiveError::Invalid { message: SLUG_INVALID });
        }
        if c == '-' && prev == '-' {
            return Err(PrimitiveError::Invalid { message: SLUG_INVALID });
        }
        prev = c;
        i = i + 1;
    }
    Ok(())
}

/// URL-safe slug: lowercase ASCII letters, digits and single hyphens, not
/// starting or ending with a hyphen.
#[derive(Debug, PartialEq, Eq, PartialOrd, Ord, Hash)]
pub struct Slug(String);

impl Slug {
    /// Creates a slug; an empty value is `Empty`, any other rule violation is
    /// `Invalid`.
    pub fn new(value: &str) -> (r: PrimitiveResult<Slug>)
        ensures
            match (r, slug_check(value@)) {
                (Ok(t), Ok(())) => t@ == value@,
                (Err(e), Err(f)) => e == f,
                _ => false,
            },
    {
        match check_slug(value) {
            Ok(()) => Ok(Slug(value.to_owned())),
            Err(e) => Err(e),
        }
    }
}

impl View for Slug {
    type V = Seq<char>;

    closed spec fn view(&self) -> Seq<char> {
        self.0@
    }
}

impl Slug {
    #[verifier::type_invariant]
    spec fn wf(self) -> bool {
        slug_check(self.0@) is Ok
    }

    /// Returns the underlying string slice.
    pub fn as_str(&self) -> (s: &str)
        ensures
            s@ == self@,
    {
        self.0.as_str()
    }

    /// Consumes the wrapper and returns the inner string.
    pub fn into_inner(self) -> (s: String)
        ensures
            s@ == self@,
    {
        self.0
    }

    /// Returns a copy of the text.
    pub fn to_string(&self) -> (s: String)
        ensures
            s@ == self@,
    {
        self.0.clone()
    }
}

impl Clone for Slug {
    fn clone(&self) -> (c: Slug)
        ensures
            c@ == self@,
    {
        proof {
            use_type_invariant(self);
        }
        Slug(self.0.clone())
    }
}

impl AsRef<str> for Slug {
    fn as_ref(&self) -> (s: &str)
        ensures
            s@ == self@,
    {
        self.as_str()
    }
}

impl core::ops::Deref for Slug {
    type Target = str;

    fn deref(&self) -> (s: &str)
        ensures
            s@ == self@,
    {
        self.as_str()
    }
}

impl<'a> TryFrom<&'a str> for Slug {
    type Error = PrimitiveError;

    fn try_from(value: &'a str) -> (r: Result<Slug, PrimitiveError>)
        ensures
            match (r, slug_check(value@)) {
                (Ok(t), Ok(())) => t@ == value@,
                (Err(e), Err(f)) => e == f,
                _ => false,
            },
    {
        Slug::new(value)
    }
}

impl<'a> vstd::std_specs::convert::TryFromSpecImpl<&'a str> for Slug {
    open spec fn obeys_try_from_spec() -> bool {
        false
    }

    closed spec fn try_from_spec(v: &'a str) -> Result<Slug, PrimitiveError> {
        arbitrary()
    }
}

impl TryFrom<String> for Slug {
    type Error = PrimitiveError;

    fn try_from(value: String) -> (r: Result<Slug, PrimitiveError>) {
        match check_slug(value.as_str()) {
            Ok(()) => Ok(Slug(value)),
            Err(e) => Err(e),
        }
    }
}

impl vstd::std_specs::convert::TryFromSpecImpl<String> for Slug {
    open spec fn obeys_try_from_spec() -> bool {
        true
    }

    closed spec fn try_from_spec(v: String) -> Result<Slug, PrimitiveError> {
        match slug_check(v@) {
            Ok(()) => Ok(Slug(v)),
            Err(e) => Err(e),
        }
    }
}

impl core::str::FromStr for Slug {
    type Err = PrimitiveError;

    fn from_str(s: &str) -> (r: Result<Slug, PrimitiveError>)
        ensures
            match (r, slug_check(s@)) {
                (Ok(t), Ok(())) => t@ == s@,
                (Err(e), Err(f)) => e == f,
                _ => false,
            },
    {
        Slug::new(s)
    }
}

impl PartialEq<str> for Slug {
    fn eq(&self, other: &str) -> (r: bool) {
        str_eq(self.as_str(), other)
    }
}

impl vstd::std_specs::cmp::PartialEqSpecImpl<str> for Slug {
    open spec fn obeys_eq_spec() -> bool {
        true
    }

    open spec fn eq_spec(&self, other: &str) -> bool {
        self@ == other@
    }
}

impl<'a> PartialEq<&'a str> for Slug {
    fn eq(&self, other: &&'a str) -> (r: bool) {
        str_eq(self.as_str(), *other)
    }
}

impl<'a> vstd::std_specs::cmp::PartialEqSpecImpl<&'a str> for Slug {
    open spec fn obeys_eq_spec() -> bool {
        true
    }

    open spec fn eq_spec(&self, other: &&'a str) -> bool {
        self@ == (*other)@
    }
}

impl PartialEq<String> for Slug {
    fn eq(&self, other: &String) -> (r: bool) {
        str_eq(self.as_str(), other.as_str())
    }
}

impl vstd::std_specs::cmp::PartialEqSpecImpl<String> for Slug {
    open spec fn obeys_eq_spec() -> bool {
        true
    }

    open spec fn eq_spec(&self, other: &String) -> bool {
        self@ == other@
    }
}

impl<'a> PartialEq<&'a String> for Slug {
    fn eq(&self, other: &&'a String) -> (r: bool) {
        str_eq(self.as_str(), other.as_str())
    }
}

impl<'a> vstd::std_specs::cmp::PartialEqSpecImpl<&'a String> for Slug {
    open spec fn obeys_eq_spec() -> bool {
        true
    }

    open spec fn eq_spec(&self, other: &&'a String) -> bool {
        self@ == (*other)@
    }
}

impl From<Slug> for String {
    fn from(value: Slug) -> (r: String)
        ensures
            r@ == value@,
    {
        value.into_inner()
    }
}

impl vstd::std_specs::convert::FromSpecImpl<Slug> for String {
    open spec fn obeys_from_spec() -> bool {
        false
    }

    closed spec fn from_spec(v: Slug) -> String {
        arbitrary()
    }
}

/// The message for a value that is not a structurally valid email address.
pub const EMAIL_INVALID: &'static str = "invalid email address";

/// The structural email rules: no whitespace, exactly one `@`, a non-empty
/// local part, and a domain with at least one dot and no empty labels.
pub open spec fn is_email(s: Seq<char>) -> bool {
    let k = find(s, '@');
    let d = s.subrange(k + 1int, s.len() as int);
    &&& !any_ws(s)
    &&& k < s.len()
    &&& forall|i: int| k < i < s.len() ==> #[trigger] s[i] != '@'
    &&& k > 0
    &&& d.len() > 0
    &&& exists|i: int| 0 <= i < d.len() && #[trigger] d[i] == '.'
    &&& d[0] != '.'
    &&& d.last() != '.'
    &&& forall|i: int| 0 < i < d.len() ==> !(#[trigger] d[i] == '.' && d[i - 1] == '.')
}

/// The outcome of validating `s` as an email address.
pub open spec fn email_check(s: Seq<char>) -> Result<(), PrimitiveError> {
    if s.len() == 0 {
        Err(PrimitiveError::Empty)
    } else if !is_email(s) {
        Err(PrimitiveError::Invalid { message: EMAIL_INVALID })
    } else {
        Ok(())
    }
}

fn check_email(value: &str) -> (r: PrimitiveResult<()>)
    ensures
        r == email_check(value@),
{
    let n = value.unicode_len();
    if n == 0 {
        return Err(PrimitiveError::Empty);
    }
    if has_ws(value) {
        return Err(PrimitiveError::Invalid { message: EMAIL_INVALID });
    }
    let k = find_char(value, '@');
    proof {
        lemma_find(value@, '@');
    }
    if k == n || k == 0 || k + 1 == n {
        return Err(PrimitiveError::Invalid { message: EMAIL_INVALID });
    }
    let ghost d = value@.subrange(k + 1, n as int);
    if value.get_char(k + 1) == '.' || value.get_char(n - 1) == '.' {
        return Err(PrimitiveError::Invalid { message: EMAIL_INVALID });
    }
    let mut has_dot = false;
    let mut i: usize = k + 1;
    while i < n
        invariant
            n == value@.len(),
            k < n,
            k == find(value@, '@'),
            k > 0,
            !any_ws(value@),
            value@[k + 1] != '.',
            value@[n - 1] != '.',
            k + 1 <= i <= n,
            d == value@.subrange(k + 1, n as int),
            forall|j: int| k < j < i ==> #[trigger] value@[j] != '@',
            forall|j: int| k + 1 < j < i ==> !(#[trigger] value@[j] == '.' && value@[j - 1] == '.'),
            has_dot ==> exists|j: int| 0 <= j < d.len() && #[trigger] d[j] == '.',
            !has_dot ==> forall|j: int| k < j < i ==> #[trigger] value@[j] != '.',
        decreases n - i,
    {
        let c = value.get_char(i);
        if c == '@' {
            proof {
                assert(k < i < n && value@[i as int] == '@');
                assert(!is_email(value@));
            }
            return Err(PrimitiveError::Invalid { message: EMAIL_INVALID });
        }
        if c == '.' {
            if value.get_char(i - 1) == '.' && i > k + 1 {
                proof {
                    let j = i - k - 1;
                    assert(d[j] == '.' && d[j - 1] == '.');
                    assert(0 < j < d.len());
                    assert(!is_email(value@));
                }
                return Err(PrimitiveError::Invalid { message: EMAIL_INVALID });
            }
            proof {
                assert(d[i - k - 1] == '.');
            }
            has_dot = true;
        }
        i = i + 1;
    }
    if !has_dot {
        proof {
            assert forall|j: int| 0 <= j < d.len() implies #[trigger] d[j] != '.' by {
                assert(d[j] == value@[k + 1 + j]);
            }
        }
        return Err(PrimitiveError::Invalid { message: EMAIL_INVALID });
    }
    proof {
        assert forall|j: int| 0 < j < d.len() implies !(#[trigger] d[j] == '.' && d[j - 1] == '.') by {
            assert(d[j] == value@[k + 1 + j]);
            assert(d[j - 1] == value@[k + j]);
        }
    }
    Ok(())
}

/// Email address with basic structural validation; not a full RFC 5321
/// validator.
#[derive(Debug, PartialEq, Eq, PartialOrd, Ord, Hash)]
pub struct Email(String);

impl Email {
    /// Creates an email address; an empty value is `Empty`, a structurally
    /// invalid one is `Invalid`.
    pub fn new(value: &str) -> (r: PrimitiveResult<Email>)
        ensures
            match (r, email_check(value@)) {
                (Ok(t), Ok(())) => t@ == value@,
                (Err(e), Err(f)) => e == f,
                _ => false,
            },
    {
        match check_email(value) {
            Ok(()) => Ok(Email(value.to_owned())),
            Err(e) => Err(e),
        }
    }

    /// Returns the local part (before `@`).
    pub fn local(&self) -> (s: &str)
        ensures
            s@ == self@.subrange(0, find(self@, '@') as int),
    {
        proof {
            use_type_invariant(self);
        }
        let k = find_char(self.0.as_str(), '@');
        self.0.as_str().substring_char(0, k)
    }

    /// Returns the domain part (after `@`).
    pub fn domain(&self) -> (s: &str)
        ensures
            s@ == self@.subrange(find(self@, '@') + 1int, self@.len() as int),
    {
        proof {
            use_type_invariant(self);
        }
        let k = find_char(self.0.as_str(), '@');
        let n = self.0.as_str().unicode_len();
        self.0.as_str().substring_char(k + 1, n)
    }
}

impl View for Email {
    type V = Seq<char>;

    closed spec fn view(&self) -> Seq<char> {
        self.0@
    }
}

impl Email {
    #[verifier::type_invariant]
    spec fn wf(self) -> bool {
        email_check(self.0@) is Ok
    }

    /// Returns the underlying string slice.
    pub fn as_str(&self) -> (s: &str)
        ensures
            s@ == self@,
    {
        self.0.as_str()
    }

    /// Consumes the wrapper and returns the inner string.
    pub fn into_inner(self) -> (s: String)
        ensures
            s@ == self@,
    {
        self.0
    }

    /// Returns a copy of the text.
    pub fn to_string(&self) -> (s: String)
        ensures
            s@ == self@,
    {
        self.0.clone()
    }
}

impl Clone for Email {
    fn clone(&self) -> (c: Email)
        ensures
            c@ == self@,
    {
        proof {
            use_type_invariant(self);
        }
        Email(self.0.clone())
    }
}

impl AsRef<str> for Email {
    fn as_ref(&self) -> (s: &str)
        ensures
            s@ == self@,
    {
        self.as_str()
    }
}

impl core::ops::Deref for Email {
    type Target = str;

    fn deref(&self) -> (s: &str)
        ensures
            s@ == self@,
    {
        self.as_str()
    }
}

impl<'a> TryFrom<&'a str> for Email {
    type Error = PrimitiveError;

    fn try_from(value: &'a str) -> (r: Result<Email, PrimitiveError>)
        ensures
            match (r, email_check(value@)) {
                (Ok(t), Ok(())) => t@ == value@,
                (Err(e), Err(f)) => e == f,
                _ => false,
            },
    {
        Email::new(value)
    }
}

impl<'a> vstd::std_specs::convert::TryFromSpecImpl<&'a str> for Email {
    open spec fn obeys_try_from_spec() -> bool {
        false
    }

    closed spec fn try_from_spec(v: &'a str) -> Result<Email, PrimitiveError> {
        arbitrary()
    }
}

impl TryFrom<String> for Email {
    type Error = PrimitiveError;

    fn try_from(value: String) -> (r: Result<Email, PrimitiveError>) {
        match check_email(value.as_str()) {
            Ok(()) => Ok(Email(value)),
            Err(e) => Err(e),
        }
    }
}

impl vstd::std_specs::convert::TryFromSpecImpl<String> for Email {
    open spec fn obeys_try_from_spec() -> bool {
        true
    }

    closed spec fn try_from_spec(v: String) -> Result<Email, PrimitiveError> {
        match email_check(v@) {
            Ok(()) => Ok(Email(v)),
            Err(e) => Err(e),
        }
    }
}

impl core::str::FromStr for Email {
    type Err = PrimitiveError;

    fn from_str(s: &str) -> (r: Result<Email, PrimitiveError>)
        ensures
            match (r, email_check(s@)) {
                (Ok(t), Ok(())) => t@ == s@,
                (Err(e), Err(f)) => e == f,
                _ => false,
            },
    {
        Email::new(s)
    }
}

impl PartialEq<str> for Email {
    fn eq(&self, other: &str) -> (r: bool) {
        str_eq(self.as_str(), other)
    }
}

impl vstd::std_specs::cmp::PartialEqSpecImpl<str> for Email {
    open spec fn obeys_eq_spec() -> bool {
        true
    }

    open spec fn eq_spec(&self, other: &str) -> bool {
        self@ == other@
    }
}

impl<'a> PartialEq<&'a str> for Email {
    fn eq(&self, other: &&'a str) -> (r: bool) {
        str_eq(self.as_str(), *other)
    }
}

impl<'a> vstd::std_specs::cmp::PartialEqSpecImpl<&'a str> for Email {
    open spec fn obeys_eq_spec() -> bool {
        true
    }

    open spec fn eq_spec(&self, other: &&'a str) -> bool {
        self@ == (*other)@
    }
}

impl PartialEq<String> for Email {
    fn eq(&self, other: &String) -> (r: bool) {
        str_eq(self.as_str(), other.as_str())
    }
}

impl vstd::std_specs::cmp::PartialEqSpecImpl<String> for Email {
    open spec fn obeys_eq_spec() -> bool {
        true
    }

    open spec fn eq_spec(&self, other: &String) -> bool {
        self@ == other@
    }
}

impl<'a> PartialEq<&'a String> for Email {
    fn eq(&self, other: &&'a String) -> (r: bool) {
        str_eq(self.as_str(), other.as_str())
    }
}

impl<'a> vstd::std_specs::cmp::PartialEqSpecImpl<&'a String> for Email {
    open spec fn obeys_eq_spec() -> bool {
        true
    }

    open spec fn eq_spec(&self, other: &&'a String) -> bool {
        self@ == (*other)@
    }
}

impl From<Email> for String {
    fn from(value: Email) -> (r: String)
        ensures
            r@ == value@,
    {
        value.into_inner()
    }
}

impl vstd::std_specs::convert::FromSpecImpl<Email> for String {
    open spec fn obeys_from_spec() -> bool {
        false
    }

    closed spec fn from_spec(v: Email) -> String {
        arbitrary()
    }
}

/// The message for a value without an `http://` or `https://` scheme.
pub const URL_SCHEME: &'static str = "URL must start with http:// or https://";

/// The message for a URL whose host is empty or blank.
pub const URL_HOST: &'static str = "URL must have a non-empty host";

/// The message for a URL holding whitespace.
pub const URL_WHITESPACE: &'static str = "URL must not contain whitespace";

/// `https://` as characters.
pub open spec fn https_prefix() -> Seq<char> {
    seq!['h', 't', 't', 'p', 's', ':', '/', '/']
}

/// `http://` as characters.
pub open spec fn http_prefix() -> Seq<char> {
    seq!['h', 't', 't', 'p', ':', '/', '/']
}

/// The length of the scheme prefix (ASCII case ignored): 8 for `https://`, 7
/// for `http://`, 0 when there is none.
pub open spec fn scheme_len(s: Seq<char>) -> nat {
    if starts_with_ci(s, https_prefix()) {
        8
    } else if starts_with_ci(s, http_prefix()) {
        7
    } else {
        0
    }
}

/// The outcome of validating `s` as an HTTP(S) URL.
pub open spec fn url_check(s: Seq<char>) -> Result<(), PrimitiveError> {
    let p = scheme_len(s);
    let rest = s.subrange(p as int, s.len() as int);
    let host = rest.subrange(0, find_host_end(rest) as int);
    if s.len() == 0 {
        Err(PrimitiveError::Empty)
    } else if p == 0 {
        Err(PrimitiveError::Invalid { message: URL_SCHEME })
    } else if all_ws(host) {
        Err(PrimitiveError::Invalid { message: URL_HOST })
    } else if any_ws(rest) {
        Err(PrimitiveError::Invalid { message: URL_WHITESPACE })
    } else {
        Ok(())
    }
}

fn url_scheme_len(value: &str) -> (p: usize)
    ensures
        p == scheme_len(value@),
        p <= value@.len(),
{
    proof {
        reveal_strlit("https://");
        reveal_strlit("http://");
        assert("https://"@ =~= https_prefix());
        assert("http://"@ =~= http_prefix());
    }
    if has_prefix_ci(value, "https://") {
        8
    } else if has_prefix_ci(value, "http://") {
        7
    } else {
        0
    }
}

fn check_url(value: &str) -> (r: PrimitiveResult<()>)
    ensures
        r == url_check(value@),
{
    let n = value.unicode_len();
    if n == 0 {
        return Err(PrimitiveError::Empty);
    }
    let p = url_scheme_len(value);
    if p == 0 {
        return Err(PrimitiveError::Invalid { message: URL_SCHEME });
    }
    let ghost rest = value@.subrange(p as int, n as int);
    let e = find_host_end_from(value, p);
    proof {
        assert(value@.subrange(p as int, e as int) =~= rest.subrange(0, find_host_end(rest) as int));
    }
    if is_blank_range(value, p, e) {
        return Err(PrimitiveError::Invalid { message: URL_HOST });
    }
    if has_ws_range(value, p, n) {
        return Err(PrimitiveError::Invalid { message: URL_WHITESPACE });
    }
    Ok(())
}

/// HTTP or HTTPS URL: an `http://` or `https://` scheme (any ASCII case), a
/// non-blank host, and no whitespace.
#[derive(Debug, PartialEq, Eq, PartialOrd, Ord, Hash)]
pub struct HttpUrl(String);

impl HttpUrl {
    /// Creates a URL; an empty value is `Empty`, a missing scheme, blank host or
    /// whitespace is `Invalid`.
    pub fn new(value: &str) -> (r: PrimitiveResult<HttpUrl>)
        ensures
            match (r, url_check(value@)) {
                (Ok(t), Ok(())) => t@ == value@,
                (Err(e), Err(f)) => e == f,
                _ => false,
            },
    {
        match check_url(value) {
            Ok(()) => Ok(HttpUrl(value.to_owned())),
            Err(e) => Err(e),
        }
    }

    /// Returns `true` if the URL uses `https`: its text begins with
    /// `https://`, ASCII case ignored.
    pub fn is_https(&self) -> (b: bool)
        ensures
            b == starts_with_ci(self@, https_prefix()),
    {
        proof {
            reveal_strlit("https://");
            assert("https://"@ =~= https_prefix());
        }
        has_prefix_ci(self.0.as_str(), "https://")
    }
}

impl View for HttpUrl {
    type V = Seq<char>;

    closed spec fn view(&self) -> Seq<char> {
        self.0@
    }
}

impl HttpUrl {
    #[verifier::type_invariant]
    spec fn wf(self) -> bool {
        url_check(self.0@) is Ok
    }

    /// Returns the underlying string slice.
    pub fn as_str(&self) -> (s: &str)
        ensures
            s@ == self@,
    {
        self.0.as_str()
    }

    /// Consumes the wrapper and returns the inner string.
    pub fn into_inner(self) -> (s: String)
        ensures
            s@ == self@,
    {
        self.0
    }

    /// Returns a copy of the text.
    pub fn to_string(&self) -> (s: String)
        ensures
            s@ == self@,
    {
        self.0.clone()
    }
}

impl Clone for HttpUrl {
    fn clone(&self) -> (c: HttpUrl)
        ensures
            c@ == self@,
    {
        proof {
            use_type_invariant(self);
        }
        HttpUrl(self.0.clone())
    }
}

impl AsRef<str> for HttpUrl {
    fn as_ref(&self) -> (s: &str)
        ensures
            s@ == self@,
    {
        self.as_str()
    }
}

impl core::ops::Deref for HttpUrl {
    type Target = str;

    fn deref(&self) -> (s: &str)
        ensures
            s@ == self@,
    {
        self.as_str()
    }
}

impl<'a> TryFrom<&'a str> for HttpUrl {
    type Error = PrimitiveError;

    fn try_from(value: &'a str) -> (r: Result<HttpUrl, PrimitiveError>)
        ensures
            match (r, url_check(value@)) {
                (Ok(t), Ok(())) => t@ == value@,
                (Err(e), Err(f)) => e == f,
                _ => false,
            },
    {
        HttpUrl::new(value)
    }
}

impl<'a> vstd::std_specs::convert::TryFromSpecImpl<&'a str> for HttpUrl {
    open spec fn obeys_try_from_spec() -> bool {
        false
    }

    closed spec fn try_from_spec(v: &'a str) -> Result<HttpUrl, PrimitiveError> {
        arbitrary()
    }
}

impl TryFrom<String> for HttpUrl {
    type Error = PrimitiveError;

    fn try_from(value: String) -> (r: Result<HttpUrl, PrimitiveError>) {
        match check_url(value.as_str()) {
            Ok(()) => Ok(HttpUrl(value)),
            Err(e) => Err(e),
        }
    }
}

impl vstd::std_specs::convert::TryFromSpecImpl<String> for HttpUrl {
    open spec fn obeys_try_from_spec() -> bool {
        true
    }

    closed spec fn try_from_spec(v: String) -> Result<HttpUrl, PrimitiveError> {
        match url_check(v@) {
            Ok(()) => Ok(HttpUrl(v)),
            Err(e) => Err(e),
        }
    }
}

impl core::str::FromStr for HttpUrl {
    type Err = PrimitiveError;

    fn from_str(s: &str) -> (r: Result<HttpUrl, PrimitiveError>)
        ensures
            match (r, url_check(s@)) {
                (Ok(t), Ok(())) => t@ == s@,
                (Err(e), Err(f)) => e == f,
                _ => false,
            },
    {
        HttpUrl::new(s)
    }
}

impl PartialEq<str> for HttpUrl {
    fn eq(&self, other: &str) -> (r: bool) {
        str_eq(self.as_str(), other)
    }
}

impl vstd::std_specs::cmp::PartialEqSpecImpl<str> for HttpUrl {
    open spec fn obeys_eq_spec() -> bool {
        true
    }

    open spec fn eq_spec(&self, other: &str) -> bool {
        self@ == other@
    }
}

impl<'a> PartialEq<&'a str> for HttpUrl {
    fn eq(&self, other: &&'a str) -> (r: bool) {
        str_eq(self.as_str(), *other)
    }
}

impl<'a> vstd::std_specs::cmp::PartialEqSpecImpl<&'a str> for HttpUrl {
    open spec fn obeys_eq_spec() -> bool {
        true
    }

    open spec fn eq_spec(&self, other: &&'a str) -> bool {
        self@ == (*other)@
    }
}

impl PartialEq<String> for HttpUrl {
    fn eq(&self, other: &String) -> (r: bool) {
        str_eq(self.as_str(), other.as_str())
    }
}

impl vstd::std_specs::cmp::PartialEqSpecImpl<String> for HttpUrl {
    open spec fn obeys_eq_spec() -> bool {
        true
    }

    open spec fn eq_spec(&self, other: &String) -> bool {
        self@ == other@
    }
}

impl<'a> PartialEq<&'a String> for HttpUrl {
    fn eq(&self, other: &&'a String) -> (r: bool) {
        str_eq(self.as_str(), other.as_str())
    }
}

impl<'a> vstd::std_specs::cmp::PartialEqSpecImpl<&'a String> for HttpUrl {
    open spec fn obeys_eq_spec() -> bool {
        true
    }

    open spec fn eq_spec(&self, other: &&'a String) -> bool {
        self@ == (*other)@
    }
}

impl From<HttpUrl> for String {
    fn from(value: HttpUrl) -> (r: String)
        ensures
            r@ == value@,
    {
        value.into_inner()
    }
}

impl vstd::std_specs::convert::FromSpecImpl<HttpUrl> for String {
    open spec fn obeys_from_spec() -> bool {
        false
    }

    closed spec fn from_spec(v: HttpUrl) -> String {
        arbitrary()
    }
}

/// The message for a hex string with nothing after its `0x` prefix.
pub const HEX_EMPTY_AFTER_PREFIX: &'static str = "hex string must not be empty after prefix";

/// The message for a hex string holding a non-hex character.
pub const HEX_BAD_CHAR: &'static str = "hex string must contain only hexadecimal characters (0-9, a-f, A-F)";

/// The length of an optional `0x`/`0X` prefix: 2 or 0.
pub open spec fn hex_prefix_len(s: Seq<char>) -> nat {
    if s.len() >= 2 && s[0] == '0' && (s[1] == 'x' || s[1] == 'X') {
        2
    } else {
        0
    }
}

/// The outcome of validating `s` as a hex string.
pub open spec fn hex_check(s: Seq<char>) -> Result<(), PrimitiveError> {
    let digits = s.subrange(hex_prefix_len(s) as int, s.len() as int);
    if s.len() == 0 {
        Err(PrimitiveError::Empty)
    } else if digits.len() == 0 {
        Err(PrimitiveError::Invalid { message: HEX_EMPTY_AFTER_PREFIX })
    } else if !(forall|i: int| 0 <= i < digits.len() ==> is_hex(#[trigger] digits[i])) {
        Err(PrimitiveError::Invalid { message: HEX_BAD_CHAR })
    } else {
        Ok(())
    }
}

fn hex_prefix(value: &str) -> (p: usize)
    ensures
        p == hex_prefix_len(value@),
{
    let n = value.unicode_len();
    if n >= 2 && value.get_char(0) == '0' && (value.get_char(1) == 'x' || value.get_char(1) == 'X') {
        2
    } else {
        0
    }
}

fn check_hex(value: &str) -> (r: PrimitiveResult<()>)
    ensures
        r == hex_check(value@),
{
    let n = value.unicode_len();
    if n == 0 {
        return Err(PrimitiveError::Empty);
    }
    let p = hex_prefix(value);
    let ghost digits = value@.subrange(p as int, n as int);
    if p == n {
        return Err(PrimitiveError::Invalid { message: HEX_EMPTY_AFTER_PREFIX });
    }
    let mut i: usize = p;
    while i < n
        invariant
            n == value@.len(),
            p <= i <= n,
            p < n,
            p == hex_prefix_len(value@),
            digits == value@.subrange(p as int, n as int),
            forall|j: int| p <= j < i ==> is_hex(#[trigger] value@[j]),
        decreases n - i,
    {
        let c = value.get_char(i);
        if !(('0' <= c && c <= '9') || ('a' <= c && c <= 'f') || ('A' <= c && c <= 'F')) {
            proof {
                assert(digits[i - p] == c);
                assert(!is_hex(digits[i - p]));
            }
            return Err(PrimitiveError::Invalid { message: HEX_BAD_CHAR });
        }
        i = i + 1;
    }
    proof {
        assert forall|j: int| 0 <= j < digits.len() implies is_hex(#[trigger] digits[j]) by {
            assert(digits[j] == value@[p + j]);
        }
    }
    Ok(())
}

/// String of hexadecimal digits, with an optional `0x`/`0X` prefix.
#[derive(Debug, PartialEq, Eq, PartialOrd, Ord, Hash)]
pub struct HexString(String);

impl HexString {
    /// Creates a hex string; an empty value is `Empty`; nothing after the
    /// prefix, or a non-hex character, is `Invalid`.
    pub fn new(value: &str) -> (r: PrimitiveResult<HexString>)
        ensures
            match (r, hex_check(value@)) {
                (Ok(t), Ok(())) => t@ == value@,
                (Err(e), Err(f)) => e == f,
                _ => false,
            },
    {
        match check_hex(value) {
            Ok(()) => Ok(HexString(value.to_owned())),
            Err(e) => Err(e),
        }
    }

    /// Returns `true` if the value was stored with a `0x`/`0X` prefix.
    pub fn has_prefix(&self) -> (b: bool)
        ensures
            b == (hex_prefix_len(self@) == 2),
    {
        hex_prefix(self.0.as_str()) == 2
    }

    /// Returns the hex digits, without any `0x`/`0X` prefix.
    pub fn hex_digits(&self) -> (s: &str)
        ensures
            s@ == self@.subrange(hex_prefix_len(self@) as int, self@.len() as int),
    {
        let p = hex_prefix(self.0.as_str());
        let n = self.0.as_str().unicode_len();
        self.0.as_str().substring_char(p, n)
    }
}

impl View for HexString {
    type V = Seq<char>;

    closed spec fn view(&self) -> Seq<char> {
        self.0@
    }
}

impl HexString {
    #[verifier::type_invariant]
    spec fn wf(self) -> bool {
        hex_check(self.0@) is Ok
    }

    /// Returns the underlying string slice.
    pub fn as_str(&self) -> (s: &str)
        ensures
            s@ == self@,
    {
        self.0.as_str()
    }

    /// Consumes the wrapper and returns the inner string.
    pub fn into_inner(self) -> (s: String)
        ensures
            s@ == self@,
    {
        self.0
    }

    /// Returns a copy of the text.
    pub fn to_string(&self) -> (s: String)
        ensures
            s@ == self@,
    {
        self.0.clone()
    }
}

impl Clone for HexString {
    fn clone(&self) -> (c: HexString)
        ensures
            c@ == self@,
    {
        proof {
            use_type_invariant(self);
        }
        HexString(self.0.clone())
    }
}

impl AsRef<str> for HexString {
    fn as_ref(&self) -> (s: &str)
        ensures
            s@ == self@,
    {
        self.as_str()
    }
}

impl core::ops::Deref for HexString {
    type Target = str;

    fn deref(&self) -> (s: &str)
        ensures
            s@ == self@,
    {
        self.as_str()
    }
}

impl<'a> TryFrom<&'a str> for HexString {
    type Error = PrimitiveError;

    fn try_from(value: &'a str) -> (r: Result<HexString, PrimitiveError>)
        ensures
            match (r, hex_check(value@)) {
                (Ok(t), Ok(())) => t@ == value@,
                (Err(e), Err(f)) => e == f,
                _ => false,
            },
    {
        HexString::new(value)
    }
}

impl<'a> vstd::std_specs::convert::TryFromSpecImpl<&'a str> for HexString {
    open spec fn obeys_try_from_spec() -> bool {
        false
    }

    closed spec fn try_from_spec(v: &'a str) -> Result<HexString, PrimitiveError> {
        arbitrary()
    }
}

impl TryFrom<String> for HexString {
    type Error = PrimitiveError;

    fn try_from(value: String) -> (r: Result<HexString, PrimitiveError>) {
        match check_hex(value.as_str()) {
            Ok(()) => Ok(HexString(value)),
            Err(e) => Err(e),
        }
    }
}

impl vstd::std_specs::convert::TryFromSpecImpl<String> for HexString {
    open spec fn obeys_try_from_spec() -> bool {
        true
    }

    closed spec fn try_from_spec(v: String) -> Result<HexString, PrimitiveError> {
        match hex_check(v@) {
            Ok(()) => Ok(HexString(v)),
            Err(e) => Err(e),
        }
    }
}

impl core::str::FromStr for HexString {
    type Err = PrimitiveError;

    fn from_str(s: &str) -> (r: Result<HexString, PrimitiveError>)
        ensures
            match (r, hex_check(s@)) {
                (Ok(t), Ok(())) => t@ == s@,
                (Err(e), Err(f)) => e == f,
                _ => false,
            },
    {
        HexString::new(s)
    }
}

impl PartialEq<str> for HexString {
    fn eq(&self, other: &str) -> (r: bool) {
        str_eq(self.as_str(), other)
    }
}

impl vstd::std_specs::cmp::PartialEqSpecImpl<str> for HexString {
    open spec fn obeys_eq_spec() -> bool {
        true
    }

    open spec fn eq_spec(&self, other: &str) -> bool {
        self@ == other@
    }
}

impl<'a> PartialEq<&'a str> for HexString {
    fn eq(&self, other: &&'a str) -> (r: bool) {
        str_eq(self.as_str(), *other)
    }
}

impl<'a> vstd::std_specs::cmp::PartialEqSpecImpl<&'a str> for HexString {
    open spec fn obeys_eq_spec() -> bool {
        true
    }

    open spec fn eq_spec(&self, other: &&'a str) -> bool {
        self@ == (*other)@
    }
}

impl PartialEq<String> for HexString {
    fn eq(&self, other: &String) -> (r: bool) {
        str_eq(self.as_str(), other.as_str())
    }
}

impl vstd::std_specs::cmp::PartialEqSpecImpl<String> for HexString {
    open spec fn obeys_eq_spec() -> bool {
        true
    }

    open spec fn eq_spec(&self, other: &String) -> bool {
        self@ == other@
    }
}

impl<'a> PartialEq<&'a String> for HexString {
    fn eq(&self, other: &&'a String) -> (r: bool) {
        str_eq(self.as_str(), other.as_str())
    }
}

impl<'a> vstd::std_specs::cmp::PartialEqSpecImpl<&'a String> for HexString {
    open spec fn obeys_eq_spec() -> bool {
        true
    }

    open spec fn eq_spec(&self, other: &&'a String) -> bool {
        self@ == (*other)@
    }
}

impl From<HexString> for String {
    fn from(value: HexString) -> (r: String)
        ensures
            r@ == value@,
    {
        value.into_inner()
    }
}

impl vstd::std_specs::convert::FromSpecImpl<HexString> for String {
    open spec fn obeys_from_spec() -> bool {
        false
    }

    closed spec fn from_spec(v: HexString) -> String {
        arbitrary()
    }
}

/// A slug is accepted exactly when it is non-empty, made only of ASCII
/// lowercase letters, digits and hyphens, neither starts nor ends with a
/// hyphen, and has no two hyphens in a row; any of those characters may come
/// first.
pub proof fn law_slug_accepts_exactly(s: Seq<char>)
    ensures
        (slug_check(s) == Ok::<(), PrimitiveError>(())) <==> (s.len() > 0 && s[0] != '-' && s[s.len()
            - 1] != '-' && (forall|i: int|
            0 <= i < s.len() ==> ('a' <= #[trigger] s[i] <= 'z' || '0' <= s[i] <= '9' || s[i]
                == '-')) && (forall|i: int|
            0 < i < s.len() ==> !(#[trigger] s[i] == '-' && s[i - 1] == '-'))),
{
}

/// A hex string is accepted exactly when, after an optional `0x` or `0X`
/// prefix, at least one character is left and every one left is an ASCII hex
/// digit (either case); the number of digits does not matter.
pub proof fn law_hex_accepts_exactly(s: Seq<char>)
    ensures
        ({
            let p: int = if s.len() >= 2 && s[0] == '0' && (s[1] == 'x' || s[1] == 'X') {
                2
            } else {
                0
            };
            (hex_check(s) == Ok::<(), PrimitiveError>(())) <==> (s.len() > p && forall|i: int|
                p <= i < s.len() ==> ('0' <= #[trigger] s[i] <= '9' || 'a' <= s[i] <= 'f' || 'A'
                    <= s[i] <= 'F'))
        }),
{
    let p = hex_prefix_len(s) as int;
    let digits = s.subrange(p, s.len() as int);
    if s.len() > p {
        if forall|i: int| p <= i < s.len() ==> ('0' <= #[trigger] s[i] <= '9' || 'a' <= s[i] <= 'f'
            || 'A' <= s[i] <= 'F') {
            assert forall|i: int| 0 <= i < digits.len() implies is_hex(#[trigger] digits[i]) by {
                assert(digits[i] == s[p + i]);
            }
        } else {
            let k = choose|i: int|
                p <= i < s.len() && !('0' <= #[trigger] s[i] <= '9' || 'a' <= s[i] <= 'f' || 'A'
                    <= s[i] <= 'F');
            assert(digits[k - p] == s[k]);
            assert(!is_hex(digits[k - p]));
        }
    }
}

} // verus!
