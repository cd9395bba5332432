//! The source of each generated impl for a validated item.

use super::codegen::{
    csv_decode_method, csv_decode_text, csv_encode_methods, csv_encode_text, csv_fields_error,
    debug_quoted, enum_decode_text, enum_decode_value, enum_encode_statements, enum_encode_text,
    json_decode_body, json_decode_text, json_encode_text, json_encode_value, struct_decode_text,
    struct_decode_value, struct_encode_statements, struct_encode_text, csv_named_fields, quote,
};
use super::model::{Body, NamedField, Parsed, Shape};
use super::root::{rooted, with_crate_root};
use vstd::prelude::*;

verus! {

/// The message for a JSON encode derive on an enum.
pub const JSON_ENCODE_ENUM: &'static str = "reliakit-derive: JsonEncode does not support enums yet";

/// The message for a JSON decode derive on an enum.
pub const JSON_DECODE_ENUM: &'static str = "reliakit-derive: JsonDecode does not support enums yet";

/// The crate root of an item, as text.
pub open spec fn root_of(p: Parsed) -> Option<Seq<char>> {
    match p.crate_root {
        Some(r) => Some(r@),
        None => None,
    }
}

/// The named fields of a struct with named fields, or none.
pub open spec fn named_of(body: Body) -> Seq<NamedField> {
    match body {
        Body::Struct(Shape::Named(fields)) => fields@,
        _ => Seq::empty(),
    }
}

/// The source of the `CanonicalEncode` impl.
pub open spec fn canonical_encode_source(p: Parsed) -> Seq<char> {
    rooted(
        "impl ::reliakit_codec::CanonicalEncode for "@ + p.name@
            + " {\nfn encode<__W: ::reliakit_codec::EncodeSink + ?Sized>(&self, __writer: &mut __W) -> ::core::result::Result<(), ::reliakit_codec::CodecError> {\n"@
            + match p.body {
            Body::Struct(shape) => struct_encode_text(shape),
            Body::Enum(vs) => enum_encode_text(vs@),
        } + "\n::core::result::Result::Ok(())\n}\n}"@,
        root_of(p),
    )
}

/// The source of the `CanonicalDecode` impl.
pub open spec fn canonical_decode_source(p: Parsed) -> Seq<char> {
    rooted(
        "impl ::reliakit_codec::CanonicalDecode for "@ + p.name@
            + " {\nfn decode<__R: ::reliakit_codec::DecodeSource + ?Sized>(__reader: &mut __R) -> ::core::result::Result<Self, ::reliakit_codec::CodecError> {\n"@
            + match p.body {
            Body::Struct(shape) => struct_decode_text(shape),
            Body::Enum(vs) => enum_decode_text(p.name@, vs@),
        } + "\n}\n}"@,
        root_of(p),
    )
}

/// The source of the `JsonEncode` impl, or the reject message for an enum.
pub open spec fn json_encode_source(p: Parsed) -> Result<Seq<char>, Seq<char>> {
    match p.body {
        Body::Enum(_) => Err(JSON_ENCODE_ENUM@),
        Body::Struct(shape) => Ok(
            rooted(
                "impl ::reliakit_json::JsonEncode for "@ + p.name@
                    + " {\nfn to_json_value(&self) -> ::reliakit_json::JsonValue {\n"@
                    + json_encode_text(shape) + "\n}\n}"@,
                root_of(p),
            ),
        ),
    }
}

/// The source of the `JsonDecode` impl, or the reject message for an enum.
pub open spec fn json_decode_source(p: Parsed) -> Result<Seq<char>, Seq<char>> {
    match p.body {
        Body::Enum(_) => Err(JSON_DECODE_ENUM@),
        Body::Struct(shape) => Ok(
            rooted(
                "impl ::reliakit_json::JsonDecode for "@ + p.name@
                    + " {\nfn from_json_value(__value: &::reliakit_json::JsonValue) -> ::core::result::Result<Self, ::reliakit_json::JsonDecodeError> {\n"@
                    + json_decode_text(shape) + "\n}\n}"@,
                root_of(p),
            ),
        ),
    }
}

/// The source of the `CsvEncode` impl, or the reject message.
pub open spec fn csv_encode_source(p: Parsed) -> Result<Seq<char>, Seq<char>> {
    match csv_fields_error(p.body, "CsvEncode"@) {
        Some(m) => Err(m),
        None => Ok(
            rooted(
                "impl ::reliakit_csv::CsvEncode for "@ + p.name@ + " {\n"@ + csv_encode_text(
                    named_of(p.body),
                ) + "\n}"@,
                root_of(p),
            ),
        ),
    }
}

/// The source of the `CsvDecode` impl, or the reject message.
pub open spec fn csv_decode_source(p: Parsed) -> Result<Seq<char>, Seq<char>> {
    match csv_fields_error(p.body, "CsvDecode"@) {
        Some(m) => Err(m),
        None => Ok(
            rooted(
                "impl ::reliakit_csv::CsvDecode for "@ + p.name@ + " {\n"@ + csv_decode_text(
                    named_of(p.body),
                ) + "\n}"@,
                root_of(p),
            ),
        ),
    }
}

/// The source of a `compile_error!` invocation carrying `message`.
pub open spec fn compile_error_text(message: Seq<char>) -> Seq<char> {
    "::core::compile_error!("@ + debug_quoted(message) + ");"@
}

/// Builds a `compile_error!` invocation carrying `message`.
pub fn compile_error_source(message: &str) -> (r: String)
    ensures
        r@ == compile_error_text(message@),
{
    let mut out = "::core::compile_error!(".to_owned();
    out.append(quote(message).as_str());
    out.append(");");
    out
}

impl Parsed {
    fn root(&self) -> (r: Option<&str>)
        ensures
            match r {
                Some(x) => root_of(*self) == Some(x@),
                None => root_of(*self) is None,
            },
    {
        match &self.crate_root {
            Some(r) => Some(r.as_str()),
            None => None,
        }
    }

    /// The source of the `CanonicalEncode` impl.
    pub fn canonical_encode_impl(&self) -> (r: String)
        ensures
            r@ == canonical_encode_source(*self),
    {
        let statements = match &self.body {
            Body::Struct(shape) => struct_encode_statements(shape),
            Body::Enum(variants) => enum_encode_statements(variants.as_slice()),
        };
        let mut code = "impl ::reliakit_codec::CanonicalEncode for ".to_owned();
        code.append(self.name.as_str());
        code.append(" {\nfn encode<__W: ::reliakit_codec::EncodeSink + ?Sized>(&self, __writer: &mut __W) -> ::core::result::Result<(), ::reliakit_codec::CodecError> {\n");
        code.append(statements.as_str());
        code.append("\n::core::result::Result::Ok(())\n}\n}");
        with_crate_root(code, self.root())
    }

    /// The source of the `CanonicalDecode` impl.
    pub fn canonical_decode_impl(&self) -> (r: String)
        ensures
            r@ == canonical_decode_source(*self),
    {
        let value = match &self.body {
            Body::Struct(shape) => struct_decode_value(shape),
            Body::Enum(variants) => enum_decode_value(self.name.as_str(), variants.as_slice()),
        };
        let mut code = "impl ::reliakit_codec::CanonicalDecode for ".to_owned();
        code.append(self.name.as_str());
        code.append(" {\nfn decode<__R: ::reliakit_codec::DecodeSource + ?Sized>(__reader: &mut __R) -> ::core::result::Result<Self, ::reliakit_codec::CodecError> {\n");
        code.append(value.as_str());
        code.append("\n}\n}");
        with_crate_root(code, self.root())
    }

    /// The source of the `JsonEncode` impl; enums are not supported yet.
    pub fn json_encode_impl(&self) -> (r: Result<String, String>)
        ensures
            match (r, json_encode_source(*self)) {
                (Ok(a), Ok(b)) => a@ == b,
                (Err(a), Err(b)) => a@ == b,
                _ => false,
            },
    {
        let value = match &self.body {
            Body::Struct(shape) => json_encode_value(shape),
            Body::Enum(_) => {
                return Err(JSON_ENCODE_ENUM.to_owned());
            },
        };
        let mut code = "impl ::reliakit_json::JsonEncode for ".to_owned();
        code.append(self.name.as_str());
        code.append(" {\nfn to_json_value(&self) -> ::reliakit_json::JsonValue {\n");
        code.append(value.as_str());
        code.append("\n}\n}");
        Ok(with_crate_root(code, self.root()))
    }

    /// The source of the `JsonDecode` impl; enums are not supported yet.
    pub fn json_decode_impl(&self) -> (r: Result<String, String>)
        ensures
            match (r, json_decode_source(*self)) {
                (Ok(a), Ok(b)) => a@ == b,
                (Err(a), Err(b)) => a@ == b,
                _ => false,
            },
    {
        let body = match &self.body {
            Body::Struct(shape) => json_decode_body(shape),
            Body::Enum(_) => {
                return Err(JSON_DECODE_ENUM.to_owned());
            },
        };
        let mut code = "impl ::reliakit_json::JsonDecode for ".to_owned();
        code.append(self.name.as_str());
        code.append(" {\nfn from_json_value(__value: &::reliakit_json::JsonValue) -> ::core::result::Result<Self, ::reliakit_json::JsonDecodeError> {\n");
        code.append(body.as_str());
        code.append("\n}\n}");
        Ok(with_crate_root(code, self.root()))
    }

    /// The source of the `CsvEncode` impl; only structs with named fields
    /// are supported.
    pub fn csv_encode_impl(&self) -> (r: Result<String, String>)
        ensures
            match (r, csv_encode_source(*self)) {
                (Ok(a), Ok(b)) => a@ == b,
                (Err(a), Err(b)) => a@ == b,
                _ => false,
            },
    {
        let fields = match csv_named_fields(&self.body, "CsvEncode") {
            Ok(f) => f,
            Err(e) => {
                return Err(e);
            },
        };
        let methods = csv_encode_methods(fields);
        let mut code = "impl ::reliakit_csv::CsvEncode for ".to_owned();
        code.append(self.name.as_str());
        code.append(" {\n");
        code.append(methods.as_str());
        code.append("\n}");
        Ok(with_crate_root(code, self.root()))
    }

    /// The source of the `CsvDecode` impl; only structs with named fields
    /// are supported.
    pub fn csv_decode_impl(&self) -> (r: Result<String, String>)
        ensures
            match (r, csv_decode_source(*self)) {
                (Ok(a), Ok(b)) => a@ == b,
                (Err(a), Err(b)) => a@ == b,
                _ => false,
            },
    {
        let fields = match csv_named_fields(&self.body, "CsvDecode") {
            Ok(f) => f,
            Err(e) => {
                return Err(e);
            },
        };
        let method = csv_decode_method(fields);
        let mut code = "impl ::reliakit_csv::CsvDecode for ".to_owned();
        code.append(self.name.as_str());
        code.append(" {\n");
        code.append(method.as_str());
        code.append("\n}");
        Ok(with_crate_root(code, self.root()))
    }
}

} // verus!
