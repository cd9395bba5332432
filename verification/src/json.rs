//! The errors of JSON parsing, serialization and typed decoding.

use crate::decimal::{decimal, render_u128};
use vstd::prelude::*;

verus! {

/// A resource limit that was exceeded while parsing.
#[non_exhaustive]
#[derive(Debug, Clone, Copy, PartialEq, Eq, Hash, Structural)]
pub enum JsonLimitKind {
    /// `max_input_bytes` exceeded.
    InputBytes,
    /// `max_depth` exceeded.
    Depth,
    /// `max_string_bytes` exceeded for a single string value.
    StringBytes,
    /// `max_key_bytes` exceeded for a single object key.
    KeyBytes,
    /// `max_number_bytes` exceeded for a single number token.
    NumberBytes,
    /// `max_array_items` exceeded.
    ArrayItems,
    /// `max_object_members` exceeded.
    ObjectMembers,
    /// `max_total_nodes` exceeded.
    TotalNodes,
    /// `max_total_decoded_string_bytes` exceeded across the document.
    TotalDecodedStringBytes,
}

/// The short description of a limit.
pub open spec fn limit_text(k: JsonLimitKind) -> Seq<char> {
    match k {
        JsonLimitKind::InputBytes => "input bytes"@,
        JsonLimitKind::Depth => "nesting depth"@,
        JsonLimitKind::StringBytes => "string bytes"@,
        JsonLimitKind::KeyBytes => "key bytes"@,
        JsonLimitKind::NumberBytes => "number bytes"@,
        JsonLimitKind::ArrayItems => "array items"@,
        JsonLimitKind::ObjectMembers => "object members"@,
        JsonLimitKind::TotalNodes => "total nodes"@,
        JsonLimitKind::TotalDecodedStringBytes => "total decoded string bytes"@,
    }
}

impl JsonLimitKind {
    /// A short, stable description of the limit.
    pub fn as_str(self) -> (s: &'static str)
        ensures
            s@ == limit_text(self),
    {
        match self {
            JsonLimitKind::InputBytes => "input bytes",
            JsonLimitKind::Depth => "nesting depth",
            JsonLimitKind::StringBytes => "string bytes",
            JsonLimitKind::KeyBytes => "key bytes",
            JsonLimitKind::NumberBytes => "number bytes",
            JsonLimitKind::ArrayItems => "array items",
            JsonLimitKind::ObjectMembers => "object members",
            JsonLimitKind::TotalNodes => "total nodes",
            JsonLimitKind::TotalDecodedStringBytes => "total decoded string bytes",
        }
    }
}

/// The category of a parse or serialization failure.
#[non_exhaustive]
#[derive(Debug, Clone, PartialEq, Eq, Structural)]
pub enum JsonErrorKind {
    /// Input ended before a complete value was parsed.
    UnexpectedEof,
    /// A byte was found that is not valid at this position.
    UnexpectedByte,
    /// The input was not valid UTF-8 (including a leading byte-order mark).
    InvalidUtf8,
    /// An invalid string escape such as `\x`.
    InvalidEscape,
    /// A malformed `\uXXXX` escape.
    InvalidUnicodeEscape,
    /// An unpaired UTF-16 surrogate escape.
    LoneSurrogate,
    /// A raw control character (`U+0000..=U+001F`) inside a string.
    UnescapedControlCharacter,
    /// A number that does not match the strict JSON grammar.
    InvalidNumber,
    /// A duplicate object member name.
    DuplicateKey,
    /// Non-whitespace bytes after the top-level value.
    TrailingData,
    /// A configured limit was exceeded.
    LimitExceeded(JsonLimitKind),
    /// The output sink failed to accept bytes (serialization).
    WriteFailure,
    /// A number could not be represented as a finite IEEE-754 `f64` during
    /// canonical serialization.
    NonFiniteNumber,
}

/// One segment of a [`JsonPath`].
#[derive(Debug, Clone, PartialEq, Eq)]
pub enum JsonPathSegment {
    /// An object member name.
    Key(String),
    /// An array index.
    Index(usize),
}

/// The text of one path segment: `.key` or `[index]`.
pub open spec fn segment_text(s: JsonPathSegment) -> Seq<char> {
    match s {
        JsonPathSegment::Key(k) => "."@ + k@,
        JsonPathSegment::Index(i) => "["@ + decimal(i as nat) + "]"@,
    }
}

/// The texts of the segments, one after the other.
pub open spec fn segments_text(s: Seq<JsonPathSegment>) -> Seq<char>
    decreases s.len(),
{
    if s.len() == 0 {
        Seq::empty()
    } else {
        segments_text(s.drop_last()) + segment_text(s.last())
    }
}

/// The text of a path: `$` followed by its segments.
pub open spec fn path_text(s: Seq<JsonPathSegment>) -> Seq<char> {
    "$"@ + segments_text(s)
}

/// The location of an error within the JSON document, as a path of object keys
/// and array indices from the document root (`$`).
#[derive(Debug, Clone, PartialEq, Eq)]
pub struct JsonPath {
    segments: Vec<JsonPathSegment>,
}

impl View for JsonPath {
    type V = Seq<JsonPathSegment>;

    closed spec fn view(&self) -> Seq<JsonPathSegment> {
        self.segments@
    }
}

impl JsonPath {
    /// A path made of the given segments.
    pub fn from_segments(segments: Vec<JsonPathSegment>) -> (p: JsonPath)
        ensures
            p@ == segments@,
    {
        JsonPath { segments }
    }

    /// Returns the path segments from the root.
    pub fn segments(&self) -> (s: &[JsonPathSegment])
        ensures
            s@ == self@,
    {
        self.segments.as_slice()
    }

    /// Renders the path: `$`, then `.key` or `[index]` for each segment.
    pub fn to_string(&self) -> (s: String)
        ensures
            s@ == path_text(self@),
    {
        let mut out = "$".to_owned();
        let n = self.segments.len();
        let mut i: usize = 0;
        while i < n
            invariant
                n == self@.len(),
                i <= n,
                out@ == "$"@ + segments_text(self@.subrange(0, i as int)),
            decreases n - i,
        {
            assert(self@.subrange(0, i + 1).drop_last() =~= self@.subrange(0, i as int));
            match &self.segments[i] {
                JsonPathSegment::Key(k) => {
                    out.append(".");
                    out.append(k.as_str());
                },
                JsonPathSegment::Index(x) => {
                    out.append("[");
                    out.append(render_u128(*x as u128).as_str());
                    out.append("]");
                },
            }
            i = i + 1;
        }
        assert(self@.subrange(0, n as int) =~= self@);
        out
    }
}

impl Default for JsonPath {
    fn default() -> (p: JsonPath)
        ensures
            p@ == Seq::<JsonPathSegment>::empty(),
    {
        JsonPath { segments: Vec::new() }
    }
}

/// The content of a [`JsonError`].
pub struct JsonErrorView {
    pub kind: JsonErrorKind,
    pub offset: usize,
    pub line: usize,
    pub column: usize,
    pub path: Option<Seq<JsonPathSegment>>,
}

/// The description of an error kind.
pub open spec fn kind_message(k: JsonErrorKind) -> Seq<char> {
    match k {
        JsonErrorKind::UnexpectedEof => "unexpected end of input"@,
        JsonErrorKind::UnexpectedByte => "unexpected byte"@,
        JsonErrorKind::InvalidUtf8 => "invalid UTF-8"@,
        JsonErrorKind::InvalidEscape => "invalid escape sequence"@,
        JsonErrorKind::InvalidUnicodeEscape => "invalid unicode escape"@,
        JsonErrorKind::LoneSurrogate => "unpaired UTF-16 surrogate"@,
        JsonErrorKind::UnescapedControlCharacter => "unescaped control character in string"@,
        JsonErrorKind::InvalidNumber => "invalid number"@,
        JsonErrorKind::DuplicateKey => "duplicate object key"@,
        JsonErrorKind::TrailingData => "trailing data after JSON value"@,
        JsonErrorKind::LimitExceeded(l) => "limit exceeded: "@ + limit_text(l),
        JsonErrorKind::WriteFailure => "failed to write output"@,
        JsonErrorKind::NonFiniteNumber => "number is not representable as a finite f64"@,
    }
}

/// The text of an error: the kind's description, then for parse errors the
/// position and, when known, the path.
pub open spec fn json_error_text(e: JsonErrorView) -> Seq<char> {
    match e.kind {
        JsonErrorKind::WriteFailure => kind_message(e.kind),
        JsonErrorKind::NonFiniteNumber => kind_message(e.kind),
        _ => kind_message(e.kind) + " at byte "@ + decimal(e.offset as nat) + ", line "@ + decimal(
            e.line as nat,
        ) + ", column "@ + decimal(e.column as nat) + match e.path {
            Some(p) => ", path: "@ + path_text(p),
            None => Seq::empty(),
        },
    }
}

/// An error produced while parsing or serializing JSON: a kind, the byte
/// offset, the 1-based line and column, and the path when known.
#[derive(Debug, Clone, PartialEq, Eq)]
pub struct JsonError {
    kind: JsonErrorKind,
    offset: usize,
    line: usize,
    column: usize,
    path: Option<JsonPath>,
}

impl View for JsonError {
    type V = JsonErrorView;

    closed spec fn view(&self) -> JsonErrorView {
        JsonErrorView {
            kind: self.kind,
            offset: self.offset,
            line: self.line,
            column: self.column,
            path: match self.path {
                Some(p) => Some(p@),
                None => None,
            },
        }
    }
}

fn kind_message_str(k: &JsonErrorKind) -> (s: String)
    ensures
        s@ == kind_message(*k),
{
    match k {
        JsonErrorKind::UnexpectedEof => "unexpected end of input".to_owned(),
        JsonErrorKind::UnexpectedByte => "unexpected byte".to_owned(),
        JsonErrorKind::InvalidUtf8 => "invalid UTF-8".to_owned(),
        JsonErrorKind::InvalidEscape => "invalid escape sequence".to_owned(),
        JsonErrorKind::InvalidUnicodeEscape => "invalid unicode escape".to_owned(),
        JsonErrorKind::LoneSurrogate => "unpaired UTF-16 surrogate".to_owned(),
        JsonErrorKind::UnescapedControlCharacter => "unescaped control character in string".to_owned(),
        JsonErrorKind::InvalidNumber => "invalid number".to_owned(),
        JsonErrorKind::DuplicateKey => "duplicate object key".to_owned(),
        JsonErrorKind::TrailingData => "trailing data after JSON value".to_owned(),
        JsonErrorKind::LimitExceeded(l) => {
            let mut s = "limit exceeded: ".to_owned();
            s.append(l.as_str());
            s
        },
        JsonErrorKind::WriteFailure => "failed to write output".to_owned(),
        JsonErrorKind::NonFiniteNumber => "number is not representable as a finite f64".to_owned(),
    }
}

impl JsonError {
    /// An error of `kind` at the given byte offset, line and column, with no
    /// path.
    pub fn new(kind: JsonErrorKind, offset: usize, line: usize, column: usize) -> (e: JsonError)
        ensures
            e@ == (JsonErrorView { kind, offset, line, column, path: None }),
    {
        JsonError { kind, offset, line, column, path: None }
    }

    /// An error that occurred during serialization, where there is no source
    /// position: offset, line and column are `0`.
    pub fn serialization(kind: JsonErrorKind) -> (e: JsonError)
        ensures
            e@ == (JsonErrorView { kind, offset: 0, line: 0, column: 0, path: None }),
    {
        JsonError { kind, offset: 0, line: 0, column: 0, path: None }
    }

    /// The same error, at `path`.
    pub fn with_path(self, path: JsonPath) -> (e: JsonError)
        ensures
            e@ == (JsonErrorView { path: Some(path@), ..self@ }),
    {
        JsonError { path: Some(path), ..self }
    }

    /// The stable error category.
    pub fn kind(&self) -> (k: &JsonErrorKind)
        ensures
            *k == self@.kind,
    {
        &self.kind
    }

    /// The byte offset of the error in the input.
    pub fn offset(&self) -> (n: usize)
        ensures
            n == self@.offset,
    {
        self.offset
    }

    /// The 1-based line of the error.
    pub fn line(&self) -> (n: usize)
        ensures
            n == self@.line,
    {
        self.line
    }

    /// The 1-based column of the error.
    pub fn column(&self) -> (n: usize)
        ensures
            n == self@.column,
    {
        self.column
    }

    /// The JSON path being processed when the error occurred, if known.
    pub fn path(&self) -> (p: Option<&JsonPath>)
        ensures
            match p {
                Some(q) => self@.path == Some(q@),
                None => self@.path is None,
            },
    {
        match &self.path {
            Some(q) => Some(q),
            None => None,
        }
    }

    /// Renders the error as human-readable text.
    pub fn to_string(&self) -> (s: String)
        ensures
            s@ == json_error_text(self@),
    {
        let mut out = kind_message_str(&self.kind);
        match &self.kind {
            JsonErrorKind::WriteFailure => {
                return out;
            },
            JsonErrorKind::NonFiniteNumber => {
                return out;
            },
            _ => {},
        }
        out.append(" at byte ");
        out.append(render_u128(self.offset as u128).as_str());
        out.append(", line ");
        out.append(render_u128(self.line as u128).as_str());
        out.append(", column ");
        out.append(render_u128(self.column as u128).as_str());
        match &self.path {
            Some(p) => {
                out.append(", path: ");
                out.append(p.to_string().as_str());
            },
            None => {},
        }
        out
    }
}

/// An error from a JSON number conversion.
#[non_exhaustive]
#[derive(Debug, Clone, Copy, PartialEq, Eq, Structural)]
pub enum JsonNumberError {
    /// The value does not fit the target integer type.
    OutOfRange,
    /// The value is not an integer (it has a fraction or exponent).
    NotAnInteger,
    /// The value is not a finite number.
    NotFinite,
    /// The string is not a valid JSON number.
    InvalidNumber,
}

/// The text of a number conversion error.
pub open spec fn number_error_text(e: JsonNumberError) -> Seq<char> {
    match e {
        JsonNumberError::OutOfRange => "number out of range for target type"@,
        JsonNumberError::NotAnInteger => "number is not an integer"@,
        JsonNumberError::NotFinite => "number is not finite"@,
        JsonNumberError::InvalidNumber => "not a valid JSON number"@,
    }
}

impl JsonNumberError {
    /// Renders the error as human-readable text.
    pub fn to_string(&self) -> (s: String)
        ensures
            s@ == number_error_text(*self),
    {
        match self {
            JsonNumberError::OutOfRange => "number out of range for target type".to_owned(),
            JsonNumberError::NotAnInteger => "number is not an integer".to_owned(),
            JsonNumberError::NotFinite => "number is not finite".to_owned(),
            JsonNumberError::InvalidNumber => "not a valid JSON number".to_owned(),
        }
    }
}

/// The kind of a typed-JSON decoding error.
#[non_exhaustive]
#[derive(Debug, Clone, Copy, PartialEq, Eq, Structural)]
pub enum JsonDecodeErrorKind {
    /// A value had a different JSON type than the target expected.
    UnexpectedType,
    /// A required object field was missing.
    MissingField,
    /// A number could not be represented by the target type.
    Number,
}

/// An error from decoding a JSON value into a typed value.
#[derive(Debug, Clone, Copy, PartialEq, Eq)]
pub struct JsonDecodeError {
    kind: JsonDecodeErrorKind,
    message: &'static str,
}

impl View for JsonDecodeError {
    type V = (JsonDecodeErrorKind, Seq<char>);

    closed spec fn view(&self) -> (JsonDecodeErrorKind, Seq<char>) {
        (self.kind, self.message@)
    }
}

impl JsonDecodeError {
    /// Creates a decode error with a stable kind and an actionable message.
    pub fn new(kind: JsonDecodeErrorKind, message: &'static str) -> (e: JsonDecodeError)
        ensures
            e@ == (kind, message@),
    {
        JsonDecodeError { kind, message }
    }

    /// Returns the stable error category.
    pub fn kind(&self) -> (k: JsonDecodeErrorKind)
        ensures
            k == self@.0,
    {
        self.kind
    }

    /// Returns a human-readable message.
    pub fn message(&self) -> (m: &'static str)
        ensures
            m@ == self@.1,
    {
        self.message
    }

    /// A value had a different JSON type than expected.
    pub fn unexpected_type(message: &'static str) -> (e: JsonDecodeError)
        ensures
            e@ == (JsonDecodeErrorKind::UnexpectedType, message@),
    {
        JsonDecodeError::new(JsonDecodeErrorKind::UnexpectedType, message)
    }

    /// A required object field was missing.
    pub fn missing_field(message: &'static str) -> (e: JsonDecodeError)
        ensures
            e@ == (JsonDecodeErrorKind::MissingField, message@),
    {
        JsonDecodeError::new(JsonDecodeErrorKind::MissingField, message)
    }

    /// A number could not be represented by the target type.
    pub fn number(message: &'static str) -> (e: JsonDecodeError)
        ensures
            e@ == (JsonDecodeErrorKind::Number, message@),
    {
        JsonDecodeError::new(JsonDecodeErrorKind::Number, message)
    }

    /// Renders the error: its message.
    pub fn to_string(&self) -> (s: String)
        ensures
            s@ == self@.1,
    {
        self.message.to_owned()
    }
}

/// The error of decoding JSON text into a typed value: the text was not valid
/// JSON, or the parsed value did not match the target type.
#[non_exhaustive]
#[derive(Debug, Clone, PartialEq, Eq)]
pub enum JsonFromStrError {
    /// The input was not valid JSON.
    Parse(JsonError),
    /// The JSON parsed but did not match the target type.
    Decode(JsonDecodeError),
}

/// The text of a decoding failure.
pub open spec fn from_str_error_text(e: JsonFromStrError) -> Seq<char> {
    match e {
        JsonFromStrError::Parse(p) => "invalid JSON: "@ + json_error_text(p@),
        JsonFromStrError::Decode(d) => "JSON did not match the target type: "@ + d@.1,
    }
}

impl JsonFromStrError {
    /// Renders the error as human-readable text.
    pub fn to_string(&self) -> (s: String)
        ensures
            s@ == from_str_error_text(*self),
    {
        match self {
            JsonFromStrError::Parse(p) => {
                let mut s = "invalid JSON: ".to_owned();
                s.append(p.to_string().as_str());
                s
            },
            JsonFromStrError::Decode(d) => {
                let mut s = "JSON did not match the target type: ".to_owned();
                s.append(d.message());
                s
            },
        }
    }
}

impl From<JsonError> for JsonFromStrError {
    fn from(error: JsonError) -> (e: JsonFromStrError)
        ensures
            e == JsonFromStrError::Parse(error),
    {
        JsonFromStrError::Parse(error)
    }
}

impl vstd::std_specs::convert::FromSpecImpl<JsonError> for JsonFromStrError {
    open spec fn obeys_from_spec() -> bool {
        true
    }

    open spec fn from_spec(v: JsonError) -> JsonFromStrError {
        JsonFromStrError::Parse(v)
    }
}

impl From<JsonDecodeError> for JsonFromStrError {
    fn from(error: JsonDecodeError) -> (e: JsonFromStrError)
        ensures
            e == JsonFromStrError::Decode(error),
    {
        JsonFromStrError::Decode(error)
    }
}

impl vstd::std_specs::convert::FromSpecImpl<JsonDecodeError> for JsonFromStrError {
    open spec fn obeys_from_spec() -> bool {
        true
    }

    open spec fn from_spec(v: JsonDecodeError) -> JsonFromStrError {
        JsonFromStrError::Decode(v)
    }
}

} // verus!
