//! Writing the source of the generated impls.

use super::join::{join, join_range, lemma_join_congruent, lemma_join_full, lemma_join_step};
use super::model::{Body, NamedField, Shape, Variant};
use crate::decimal::{decimal, render_u128};
use vstd::prelude::*;

verus! {

/// The text of `s` as a Rust string literal, as `Debug` writes it: in double
/// quotes, with escapes.
pub uninterp spec fn debug_quoted(s: Seq<char>) -> Seq<char>;

/// `<str as Debug>::fmt` through `format!`: std writes `s` as a quoted string
/// literal with escapes; its result depends on `s` alone.
#[verifier::external_body]
pub(crate) fn quote(s: &str) -> (r: String)
    ensures
        r@ == debug_quoted(s@),
{
    format!("{:?}", s)
}

/// `s` without a leading `r#` raw-identifier prefix.
pub open spec fn strip_raw(s: Seq<char>) -> Seq<char> {
    if s.len() >= 2 && s[0] == 'r' && s[1] == '#' {
        s.subrange(2, s.len() as int)
    } else {
        s
    }
}

fn strip_raw_prefix(s: &str) -> (r: &str)
    ensures
        r@ == strip_raw(s@),
{
    let n = s.unicode_len();
    if n >= 2 && s.get_char(0) == 'r' && s.get_char(1) == '#' {
        s.substring_char(2, n)
    } else {
        s
    }
}

/// The JSON object key for a field: a raw identifier's `r#` prefix is dropped.
pub fn json_key(field: &str) -> (r: &str)
    ensures
        r@ == strip_raw(field@),
{
    strip_raw_prefix(field)
}

/// The CSV column name for a field: a raw identifier's `r#` prefix is dropped.
pub fn csv_column(field: &str) -> (r: &str)
    ensures
        r@ == strip_raw(field@),
{
    strip_raw_prefix(field)
}

/// The wire name of a field: its `rename`, else its name without `r#`.
pub open spec fn key_of(f: NamedField) -> Seq<char> {
    match f.rename {
        Some(r) => r@,
        None => strip_raw(f.name@),
    }
}

/// The wire name of a field.
fn key_str(f: &NamedField) -> (r: &str)
    ensures
        r@ == key_of(*f),
{
    match &f.rename {
        Some(r) => r.as_str(),
        None => strip_raw_prefix(f.name.as_str()),
    }
}

/// The decimal text of an index.
fn dec(i: usize) -> (r: String)
    ensures
        r@ == decimal(i as nat),
{
    render_u128(i as u128)
}

/// One canonical `encode` call on a field of `self`.
pub open spec fn encode_self_piece(field: Seq<char>) -> Seq<char> {
    "::reliakit_codec::CanonicalEncode::encode(&self."@ + field + ", __writer)?;"@
}

/// One canonical `decode` call.
pub open spec fn decode_call() -> Seq<char> {
    "::reliakit_codec::CanonicalDecode::decode(__reader)?,"@
}

/// One named field initialised by a canonical `decode` call.
pub open spec fn decode_named_piece(f: NamedField) -> Seq<char> {
    f.name@ + ": "@ + decode_call()
}

/// The encode statement of each named field.
pub open spec fn named_encode_pieces() -> spec_fn(int, NamedField) -> Seq<char> {
    |i: int, f: NamedField| encode_self_piece(f.name@)
}

/// The encode statement of each tuple field.
pub open spec fn index_encode_pieces() -> spec_fn(int) -> Seq<char> {
    |i: int| encode_self_piece(decimal(i as nat))
}

/// The initialiser of each named field.
pub open spec fn named_decode_pieces() -> spec_fn(int, NamedField) -> Seq<char> {
    |i: int, f: NamedField| decode_named_piece(f)
}

/// The initialiser of each tuple field.
pub open spec fn index_decode_pieces() -> spec_fn(int) -> Seq<char> {
    |i: int| decode_call()
}

/// Encode statements for a struct body: one `encode` call per field, in order.
pub open spec fn struct_encode_text(shape: Shape) -> Seq<char> {
    match shape {
        Shape::Named(fields) => join(fields@, named_encode_pieces()),
        Shape::Tuple(count) => join_range(count as nat, index_encode_pieces()),
        Shape::Unit => Seq::empty(),
    }
}

/// The decode body for a struct, returning `Ok(Self { .. })`.
pub open spec fn struct_decode_text(shape: Shape) -> Seq<char> {
    "::core::result::Result::Ok("@ + match shape {
        Shape::Named(fields) => "Self { "@ + join(fields@, named_decode_pieces()) + " }"@,
        Shape::Tuple(count) => "Self("@ + join_range(count as nat, index_decode_pieces()) + ")"@,
        Shape::Unit => "Self"@,
    } + ")"@
}

/// Encode statements for a struct body (one `encode` call per field, in order).
pub fn struct_encode_statements(shape: &Shape) -> (r: String)
    ensures
        r@ == struct_encode_text(*shape),
{
    let mut body = String::new();
    match shape {
        Shape::Named(fields) => {
            let ghost piece = named_encode_pieces();
            let mut i: usize = 0;
            while i < fields.len()
                invariant
                    i <= fields@.len(),
                    piece == named_encode_pieces(),
                    body@ == join(fields@.subrange(0, i as int), piece),
                decreases fields@.len() - i,
            {
                proof {
                    lemma_join_step(fields@, i as int, piece);
                }
                let ghost prev = body@;
                body.append("::reliakit_codec::CanonicalEncode::encode(&self.");
                body.append(fields[i].name.as_str());
                body.append(", __writer)?;");
                assert(body@ =~= prev + piece(i as int, fields@[i as int]));
                i = i + 1;
            }
            proof {
                lemma_join_full(fields@, piece);
            }
        },
        Shape::Tuple(count) => {
            let ghost piece = index_encode_pieces();
            let mut i: usize = 0;
            while i < *count
                invariant
                    i <= *count,
                    piece == index_encode_pieces(),
                    body@ == join_range(i as nat, piece),
                decreases *count - i,
            {
                let ghost prev = body@;
                body.append("::reliakit_codec::CanonicalEncode::encode(&self.");
                body.append(dec(i).as_str());
                body.append(", __writer)?;");
                assert(body@ =~= prev + piece(i as int));
                i = i + 1;
            }
        },
        Shape::Unit => {},
    }
    body
}

/// The initialisers of named fields, each decoded in turn.
fn named_decode_inits(fields: &Vec<NamedField>) -> (r: String)
    ensures
        r@ == join(fields@, named_decode_pieces()),
{
    let mut inner = String::new();
    let mut i: usize = 0;
    while i < fields.len()
        invariant
            i <= fields@.len(),
            inner@ == join(fields@.subrange(0, i as int), named_decode_pieces()),
        decreases fields@.len() - i,
    {
        proof {
            lemma_join_step(fields@, i as int, named_decode_pieces());
        }
        let ghost prev = inner@;
        inner.append(fields[i].name.as_str());
        inner.append(": ");
        inner.append("::reliakit_codec::CanonicalDecode::decode(__reader)?,");
        assert(inner@ =~= prev + named_decode_pieces()(i as int, fields@[i as int]));
        i = i + 1;
    }
    proof {
        lemma_join_full(fields@, named_decode_pieces());
    }
    inner
}

/// The items of a tuple, each decoded in turn.
fn tuple_decode_inits(count: usize) -> (r: String)
    ensures
        r@ == join_range(count as nat, index_decode_pieces()),
{
    let mut inner = String::new();
    let mut i: usize = 0;
    while i < count
        invariant
            i <= count,
            inner@ == join_range(i as nat, index_decode_pieces()),
        decreases count - i,
    {
        let ghost prev = inner@;
        inner.append("::reliakit_codec::CanonicalDecode::decode(__reader)?,");
        assert(inner@ =~= prev + index_decode_pieces()(i as int));
        i = i + 1;
    }
    inner
}

/// The decode body for a struct (returns `Ok(Self { .. })`).
pub fn struct_decode_value(shape: &Shape) -> (r: String)
    ensures
        r@ == struct_decode_text(*shape),
{
    let mut out = "::core::result::Result::Ok(".to_owned();
    match shape {
        Shape::Named(fields) => {
            out.append("Self { ");
            out.append(named_decode_inits(fields).as_str());
            out.append(" }");
        },
        Shape::Tuple(count) => {
            out.append("Self(");
            out.append(tuple_decode_inits(*count).as_str());
            out.append(")");
        },
        Shape::Unit => {
            out.append("Self");
        },
    }
    out.append(")");
    out
}

/// The insert of a field into the JSON object, or nothing for a skipped one.
pub open spec fn json_insert_piece(f: NamedField) -> Seq<char> {
    if f.skip {
        Seq::empty()
    } else {
        "__object.insert("@ + debug_quoted(key_of(f))
            + ".into(), ::reliakit_json::JsonEncode::to_json_value(&self."@ + f.name@ + "));"@
    }
}

/// The inserts of the named fields.
pub open spec fn json_insert_pieces() -> spec_fn(int, NamedField) -> Seq<char> {
    |i: int, f: NamedField| json_insert_piece(f)
}

/// The array items of the tuple fields.
pub open spec fn json_item_pieces() -> spec_fn(int) -> Seq<char> {
    |i: int| "::reliakit_json::JsonEncode::to_json_value(&self."@ + decimal(i as nat) + "),"@
}

/// The body of a struct's `JsonEncode::to_json_value`.
pub open spec fn json_encode_text(shape: Shape) -> Seq<char> {
    match shape {
        Shape::Named(fields) => "let mut __object = ::reliakit_json::JsonObject::new();\n"@ + join(
            fields@,
            json_insert_pieces(),
        ) + "\n::reliakit_json::JsonValue::Object(__object)"@,
        Shape::Tuple(count) => "::reliakit_json::JsonValue::array(["@ + join_range(
            count as nat,
            json_item_pieces(),
        ) + "])"@,
        Shape::Unit => "::reliakit_json::JsonValue::Null"@,
    }
}

/// The body of a struct's `JsonEncode::to_json_value`.
pub fn json_encode_value(shape: &Shape) -> (r: String)
    ensures
        r@ == json_encode_text(*shape),
{
    match shape {
        Shape::Named(fields) => {
            let mut inserts = String::new();
            let mut i: usize = 0;
            while i < fields.len()
                invariant
                    i <= fields@.len(),
                    inserts@ == join(fields@.subrange(0, i as int), json_insert_pieces()),
                decreases fields@.len() - i,
            {
                proof {
                    lemma_join_step(fields@, i as int, json_insert_pieces());
                }
                let ghost prev = inserts@;
                let field = &fields[i];
                if !field.skip {
                    inserts.append("__object.insert(");
                    inserts.append(quote(key_str(field)).as_str());
                    inserts.append(".into(), ::reliakit_json::JsonEncode::to_json_value(&self.");
                    inserts.append(field.name.as_str());
                    inserts.append("));");
                }
                assert(inserts@ =~= prev + json_insert_pieces()(i as int, fields@[i as int]));
                i = i + 1;
            }
            proof {
                lemma_join_full(fields@, json_insert_pieces());
            }
            let mut out = "let mut __object = ::reliakit_json::JsonObject::new();\n".to_owned();
            out.append(inserts.as_str());
            out.append("\n::reliakit_json::JsonValue::Object(__object)");
            out
        },
        Shape::Tuple(count) => {
            let mut items = String::new();
            let mut i: usize = 0;
            while i < *count
                invariant
                    i <= *count,
                    items@ == join_range(i as nat, json_item_pieces()),
                decreases *count - i,
            {
                let ghost prev = items@;
                items.append("::reliakit_json::JsonEncode::to_json_value(&self.");
                items.append(dec(i).as_str());
                items.append("),");
                assert(items@ =~= prev + json_item_pieces()(i as int));
                i = i + 1;
            }
            let mut out = "::reliakit_json::JsonValue::array([".to_owned();
            out.append(items.as_str());
            out.append("])");
            out
        },
        Shape::Unit => "::reliakit_json::JsonValue::Null".to_owned(),
    }
}

/// The initialiser of a field decoded from the JSON object: a default for a
/// skipped field, else the member under its key, required.
pub open spec fn json_field_piece(f: NamedField) -> Seq<char> {
    if f.skip {
        f.name@ + ": ::core::default::Default::default(),"@
    } else {
        f.name@ + ": ::reliakit_json::JsonDecode::from_json_value(__object.get("@ + debug_quoted(
            key_of(f),
        ) + ").ok_or_else(|| ::reliakit_json::JsonDecodeError::missing_field("@ + debug_quoted(
            "missing field `"@ + key_of(f) + "`"@,
        ) + "))?)?,"@
    }
}

/// The initialisers of the named fields.
pub open spec fn json_field_pieces() -> spec_fn(int, NamedField) -> Seq<char> {
    |i: int, f: NamedField| json_field_piece(f)
}

/// The decoded items of the tuple fields.
pub open spec fn json_element_pieces() -> spec_fn(int) -> Seq<char> {
    |i: int| "::reliakit_json::JsonDecode::from_json_value(&__array["@ + decimal(i as nat) + "])?,"@
}

/// The body of a struct's `JsonDecode::from_json_value`.
pub open spec fn json_decode_text(shape: Shape) -> Seq<char> {
    match shape {
        Shape::Named(fields) => "let __object = __value.as_object().ok_or_else(|| ::reliakit_json::JsonDecodeError::unexpected_type(\"expected a JSON object\"))?;\n::core::result::Result::Ok(Self { "@
            + join(fields@, json_field_pieces()) + " })"@,
        Shape::Tuple(count) => "let __array = __value.as_array().ok_or_else(|| ::reliakit_json::JsonDecodeError::unexpected_type(\"expected a JSON array\"))?;\nif __array.len() != "@
            + decimal(count as nat)
            + " { return ::core::result::Result::Err(::reliakit_json::JsonDecodeError::unexpected_type(\"JSON array has the wrong number of elements\")); }\n::core::result::Result::Ok(Self("@
            + join_range(count as nat, json_element_pieces()) + "))"@,
        Shape::Unit => "if !__value.is_null() {\nreturn ::core::result::Result::Err(::reliakit_json::JsonDecodeError::unexpected_type(\"expected JSON null for a unit struct\"));\n}\n::core::result::Result::Ok(Self)"@,
    }
}

/// The body of a struct's `JsonDecode::from_json_value`.
pub fn json_decode_body(shape: &Shape) -> (r: String)
    ensures
        r@ == json_decode_text(*shape),
{
    match shape {
        Shape::Named(fields) => {
            let mut inner = String::new();
            let mut i: usize = 0;
            while i < fields.len()
                invariant
                    i <= fields@.len(),
                    inner@ == join(fields@.subrange(0, i as int), json_field_pieces()),
                decreases fields@.len() - i,
            {
                proof {
                    lemma_join_step(fields@, i as int, json_field_pieces());
                }
                let ghost prev = inner@;
                let field = &fields[i];
                inner.append(field.name.as_str());
                if field.skip {
                    inner.append(": ::core::default::Default::default(),");
                } else {
                    let key = key_str(field);
                    let mut missing = "missing field `".to_owned();
                    missing.append(key);
                    missing.append("`");
                    inner.append(": ::reliakit_json::JsonDecode::from_json_value(__object.get(");
                    inner.append(quote(key).as_str());
                    inner.append(").ok_or_else(|| ::reliakit_json::JsonDecodeError::missing_field(");
                    inner.append(quote(missing.as_str()).as_str());
                    inner.append("))?)?,");
                }
                assert(inner@ =~= prev + json_field_pieces()(i as int, fields@[i as int]));
                i = i + 1;
            }
            proof {
                lemma_join_full(fields@, json_field_pieces());
            }
            let mut out = "let __object = __value.as_object().ok_or_else(|| ::reliakit_json::JsonDecodeError::unexpected_type(\"expected a JSON object\"))?;\n::core::result::Result::Ok(Self { ".to_owned();
            out.append(inner.as_str());
            out.append(" })");
            out
        },
        Shape::Tuple(count) => {
            let mut inner = String::new();
            let mut i: usize = 0;
            while i < *count
                invariant
                    i <= *count,
                    inner@ == join_range(i as nat, json_element_pieces()),
                decreases *count - i,
            {
                let ghost prev = inner@;
                inner.append("::reliakit_json::JsonDecode::from_json_value(&__array[");
                inner.append(dec(i).as_str());
                inner.append("])?,");
                assert(inner@ =~= prev + json_element_pieces()(i as int));
                i = i + 1;
            }
            let mut out = "let __array = __value.as_array().ok_or_else(|| ::reliakit_json::JsonDecodeError::unexpected_type(\"expected a JSON array\"))?;\nif __array.len() != ".to_owned();
            out.append(dec(*count).as_str());
            out.append(" { return ::core::result::Result::Err(::reliakit_json::JsonDecodeError::unexpected_type(\"JSON array has the wrong number of elements\")); }\n::core::result::Result::Ok(Self(");
            out.append(inner.as_str());
            out.append("))");
            out
        },
        Shape::Unit => "if !__value.is_null() {\nreturn ::core::result::Result::Err(::reliakit_json::JsonDecodeError::unexpected_type(\"expected JSON null for a unit struct\"));\n}\n::core::result::Result::Ok(Self)".to_owned(),
    }
}

/// Why a body has no CSV columns, if it has none: CSV needs named fields.
pub open spec fn csv_fields_error(body: Body, trait_name: Seq<char>) -> Option<Seq<char>> {
    match body {
        Body::Struct(Shape::Named(_)) => None,
        Body::Struct(_) => Some(
            "reliakit-derive: "@ + trait_name
                + " requires a struct with named fields (CSV columns need names)"@,
        ),
        Body::Enum(_) => Some("reliakit-derive: "@ + trait_name + " does not support enums"@),
    }
}

/// Returns the named fields of a struct, or a reject message: CSV needs
/// column names, so tuple structs, unit structs and enums are rejected.
pub fn csv_named_fields<'a>(body: &'a Body, trait_name: &str) -> (r: Result<&'a [NamedField], String>)
    ensures
        match csv_fields_error(*body, trait_name@) {
            Some(m) => r matches Err(e) && e@ == m,
            None => r matches Ok(s) && body matches Body::Struct(Shape::Named(fields)) && s@
                == fields@,
        },
{
    match body {
        Body::Struct(Shape::Named(fields)) => Ok(fields.as_slice()),
        Body::Struct(_) => {
            let mut m = "reliakit-derive: ".to_owned();
            m.append(trait_name);
            m.append(" requires a struct with named fields (CSV columns need names)");
            Err(m)
        },
        Body::Enum(_) => {
            let mut m = "reliakit-derive: ".to_owned();
            m.append(trait_name);
            m.append(" does not support enums");
            Err(m)
        },
    }
}

/// The header entry of each kept field.
pub open spec fn csv_header_pieces() -> spec_fn(int, NamedField) -> Seq<char> {
    |i: int, f: NamedField|
        if f.skip {
            Seq::empty()
        } else {
            "__header.push("@ + debug_quoted(key_of(f)) + ");"@
        }
}

/// The encoded value of each kept field.
pub open spec fn csv_push_pieces() -> spec_fn(int, NamedField) -> Seq<char> {
    |i: int, f: NamedField|
        if f.skip {
            Seq::empty()
        } else {
            "__out.push(::reliakit_csv::CsvField::encode_field(&self."@ + f.name@ + "));"@
        }
}

/// The `header` and `encode_fields` methods for a named struct.
pub open spec fn csv_encode_text(fields: Seq<NamedField>) -> Seq<char> {
    "fn header() -> ::reliakit_csv::__private::Vec<&'static str> {\nlet mut __header = ::reliakit_csv::__private::Vec::new();\n"@
        + join(fields, csv_header_pieces())
        + "\n__header\n}\nfn encode_fields(&self, __out: &mut ::reliakit_csv::__private::Vec<::reliakit_csv::__private::String>) {\n"@
        + join(fields, csv_push_pieces()) + "\n}"@
}

/// The `header` and `encode_fields` method bodies for a named struct.
pub fn csv_encode_methods(fields: &[NamedField]) -> (r: String)
    ensures
        r@ == csv_encode_text(fields@),
{
    let mut header = String::new();
    let mut pushes = String::new();
    let mut i: usize = 0;
    while i < fields.len()
        invariant
            i <= fields@.len(),
            header@ == join(fields@.subrange(0, i as int), csv_header_pieces()),
            pushes@ == join(fields@.subrange(0, i as int), csv_push_pieces()),
        decreases fields@.len() - i,
    {
        proof {
            lemma_join_step(fields@, i as int, csv_header_pieces());
            lemma_join_step(fields@, i as int, csv_push_pieces());
        }
        let ghost (h0, p0) = (header@, pushes@);
        let field = &fields[i];
        if !field.skip {
            header.append("__header.push(");
            header.append(quote(key_str(field)).as_str());
            header.append(");");
            pushes.append("__out.push(::reliakit_csv::CsvField::encode_field(&self.");
            pushes.append(field.name.as_str());
            pushes.append("));");
        }
        assert(header@ =~= h0 + csv_header_pieces()(i as int, fields@[i as int]));
        assert(pushes@ =~= p0 + csv_push_pieces()(i as int, fields@[i as int]));
        i = i + 1;
    }
    proof {
        lemma_join_full(fields@, csv_header_pieces());
        lemma_join_full(fields@, csv_push_pieces());
    }
    let mut out = "fn header() -> ::reliakit_csv::__private::Vec<&'static str> {\nlet mut __header = ::reliakit_csv::__private::Vec::new();\n".to_owned();
    out.append(header.as_str());
    out.append("\n__header\n}\nfn encode_fields(&self, __out: &mut ::reliakit_csv::__private::Vec<::reliakit_csv::__private::String>) {\n");
    out.append(pushes.as_str());
    out.append("\n}");
    out
}

/// The number of fields that are not skipped.
pub open spec fn kept_count(s: Seq<NamedField>) -> nat
    decreases s.len(),
{
    if s.len() == 0 {
        0
    } else {
        kept_count(s.drop_last()) + if s.last().skip {
            0nat
        } else {
            1nat
        }
    }
}

/// The initialiser of a field decoded from CSV column `column`, or a default
/// for a skipped field.
pub open spec fn csv_field_piece(f: NamedField, column: nat) -> Seq<char> {
    if f.skip {
        f.name@ + ": ::core::default::Default::default(),"@
    } else {
        f.name@ + ": ::reliakit_csv::CsvField::decode_field(__fields["@ + decimal(column)
            + "]).map_err(|__e| __e.at_field("@ + decimal(column) + "))?,"@
    }
}

/// The initialisers of the fields; a kept field reads the column that counts
/// the kept fields before it.
pub open spec fn csv_field_pieces(fields: Seq<NamedField>) -> spec_fn(int, NamedField) -> Seq<char> {
    |i: int, f: NamedField| csv_field_piece(f, kept_count(fields.subrange(0, i)))
}

/// The `decode_fields` method for a named struct.
pub open spec fn csv_decode_text(fields: Seq<NamedField>) -> Seq<char> {
    "fn decode_fields(__fields: &[&str]) -> ::core::result::Result<Self, ::reliakit_csv::CsvDecodeError> {\nif __fields.len() != "@
        + decimal(kept_count(fields))
        + " { return ::core::result::Result::Err(::reliakit_csv::CsvDecodeError::field_count()); }\n::core::result::Result::Ok(Self { "@
        + join(fields, csv_field_pieces(fields)) + " })\n}"@
}

/// The `decode_fields` method body for a named struct.
pub fn csv_decode_method(fields: &[NamedField]) -> (r: String)
    ensures
        r@ == csv_decode_text(fields@),
{
    let mut inner = String::new();
    let mut column: usize = 0;
    let mut i: usize = 0;
    while i < fields.len()
        invariant
            i <= fields@.len(),
            column == kept_count(fields@.subrange(0, i as int)),
            column <= i,
            inner@ == join(fields@.subrange(0, i as int), csv_field_pieces(fields@)),
        decreases fields@.len() - i,
    {
        proof {
            lemma_join_step(fields@, i as int, csv_field_pieces(fields@));
            assert(fields@.subrange(0, i + 1).drop_last() =~= fields@.subrange(0, i as int));
        }
        let ghost prev = inner@;
        let field = &fields[i];
        inner.append(field.name.as_str());
        if field.skip {
            inner.append(": ::core::default::Default::default(),");
        } else {
            inner.append(": ::reliakit_csv::CsvField::decode_field(__fields[");
            inner.append(dec(column).as_str());
            inner.append("]).map_err(|__e| __e.at_field(");
            inner.append(dec(column).as_str());
            inner.append("))?,");
        }
        assert(inner@ =~= prev + csv_field_pieces(fields@)(i as int, fields@[i as int]));
        if !field.skip {
            column = column + 1;
        }
        i = i + 1;
    }
    proof {
        lemma_join_full(fields@, csv_field_pieces(fields@));
        assert(fields@.subrange(0, fields@.len() as int) =~= fields@);
    }
    let mut out = "fn decode_fields(__fields: &[&str]) -> ::core::result::Result<Self, ::reliakit_csv::CsvDecodeError> {\nif __fields.len() != ".to_owned();
    out.append(dec(column).as_str());
    out.append(" { return ::core::result::Result::Err(::reliakit_csv::CsvDecodeError::field_count()); }\n::core::result::Result::Ok(Self { ");
    out.append(inner.as_str());
    out.append(" })\n}");
    out
}

/// The decimal text of the `u32` tag of the variant at index `i`.
pub open spec fn tag_text(i: int) -> Seq<char> {
    decimal((i as u32) as nat)
}

/// The statement that writes the tag of the variant at index `i`.
pub open spec fn tag_encode(i: int) -> Seq<char> {
    "::reliakit_codec::CanonicalEncode::encode(&"@ + tag_text(i) + "u32, __writer)?;"@
}

/// The separator before binding `j` of a pattern.
pub open spec fn sep(j: int) -> Seq<char> {
    if j > 0 {
        ", "@
    } else {
        Seq::empty()
    }
}

/// The statement that writes binding `j`.
pub open spec fn binding_encode(j: int) -> Seq<char> {
    "::reliakit_codec::CanonicalEncode::encode(__f"@ + decimal(j as nat) + ", __writer)?;"@
}

/// The bindings of a tuple variant's pattern.
pub open spec fn tuple_pattern_pieces() -> spec_fn(int) -> Seq<char> {
    |j: int| sep(j) + "__f"@ + decimal(j as nat)
}

/// The bindings of a struct variant's pattern, one positional local per field.
pub open spec fn named_pattern_pieces() -> spec_fn(int, NamedField) -> Seq<char> {
    |j: int, f: NamedField| sep(j) + f.name@ + ": __f"@ + decimal(j as nat)
}

/// The writes of a tuple variant's bindings.
pub open spec fn binding_encode_pieces() -> spec_fn(int) -> Seq<char> {
    |j: int| binding_encode(j)
}

/// The writes of a struct variant's bindings.
pub open spec fn named_binding_encode_pieces() -> spec_fn(int, NamedField) -> Seq<char> {
    |j: int, f: NamedField| binding_encode(j)
}

/// The match arm that encodes the variant at index `i`: its tag, then its
/// fields in order.
pub open spec fn encode_arm(i: int, v: Variant) -> Seq<char> {
    match v.shape {
        Shape::Unit => "Self::"@ + v.name@ + " => { "@ + tag_encode(i) + " },"@,
        Shape::Tuple(c) => "Self::"@ + v.name@ + "("@ + join_range(c as nat, tuple_pattern_pieces())
            + ") => { "@ + tag_encode(i) + " "@ + join_range(c as nat, binding_encode_pieces())
            + " },"@,
        Shape::Named(fs) => "Self::"@ + v.name@ + " { "@ + join(fs@, named_pattern_pieces())
            + " } => { "@ + tag_encode(i) + " "@ + join(fs@, named_binding_encode_pieces())
            + " },"@,
    }
}

/// The encode arms of the variants.
pub open spec fn encode_arm_pieces() -> spec_fn(int, Variant) -> Seq<char> {
    |i: int, v: Variant| encode_arm(i, v)
}

/// The encode statements of an enum: a `match` with one arm per variant.
pub open spec fn enum_encode_text(variants: Seq<Variant>) -> Seq<char> {
    "match self { "@ + join(variants, encode_arm_pieces()) + " }"@
}

fn tuple_pattern(count: usize) -> (r: String)
    ensures
        r@ == join_range(count as nat, tuple_pattern_pieces()),
{
    let mut out = String::new();
    let mut j: usize = 0;
    while j < count
        invariant
            j <= count,
            out@ == join_range(j as nat, tuple_pattern_pieces()),
        decreases count - j,
    {
        let ghost prev = out@;
        if j > 0 {
            out.append(", ");
        }
        out.append("__f");
        out.append(dec(j).as_str());
        assert(out@ =~= prev + tuple_pattern_pieces()(j as int));
        j = j + 1;
    }
    out
}

fn tuple_binding_encodes(count: usize) -> (r: String)
    ensures
        r@ == join_range(count as nat, binding_encode_pieces()),
{
    let mut out = String::new();
    let mut j: usize = 0;
    while j < count
        invariant
            j <= count,
            out@ == join_range(j as nat, binding_encode_pieces()),
        decreases count - j,
    {
        let ghost prev = out@;
        out.append("::reliakit_codec::CanonicalEncode::encode(__f");
        out.append(dec(j).as_str());
        out.append(", __writer)?;");
        assert(out@ =~= prev + binding_encode_pieces()(j as int));
        j = j + 1;
    }
    out
}

fn named_pattern(fields: &Vec<NamedField>) -> (r: String)
    ensures
        r@ == join(fields@, named_pattern_pieces()),
{
    let mut out = String::new();
    let mut j: usize = 0;
    while j < fields.len()
        invariant
            j <= fields@.len(),
            out@ == join(fields@.subrange(0, j as int), named_pattern_pieces()),
        decreases fields@.len() - j,
    {
        proof {
            lemma_join_step(fields@, j as int, named_pattern_pieces());
        }
        let ghost prev = out@;
        if j > 0 {
            out.append(", ");
        }
        out.append(fields[j].name.as_str());
        out.append(": __f");
        out.append(dec(j).as_str());
        assert(out@ =~= prev + named_pattern_pieces()(j as int, fields@[j as int]));
        j = j + 1;
    }
    proof {
        lemma_join_full(fields@, named_pattern_pieces());
    }
    out
}

fn named_binding_encodes(fields: &Vec<NamedField>) -> (r: String)
    ensures
        r@ == join(fields@, named_binding_encode_pieces()),
{
    let mut out = String::new();
    let mut j: usize = 0;
    while j < fields.len()
        invariant
            j <= fields@.len(),
            out@ == join(fields@.subrange(0, j as int), named_binding_encode_pieces()),
        decreases fields@.len() - j,
    {
        proof {
            lemma_join_step(fields@, j as int, named_binding_encode_pieces());
        }
        let ghost prev = out@;
        out.append("::reliakit_codec::CanonicalEncode::encode(__f");
        out.append(dec(j).as_str());
        out.append(", __writer)?;");
        assert(out@ =~= prev + named_binding_encode_pieces()(j as int, fields@[j as int]));
        j = j + 1;
    }
    proof {
        lemma_join_full(fields@, named_binding_encode_pieces());
    }
    out
}

fn write_encode_arm(i: usize, variant: &Variant) -> (r: String)
    ensures
        r@ == encode_arm(i as int, *variant),
{
    let tag = i as u32;
    let mut tag_write = "::reliakit_codec::CanonicalEncode::encode(&".to_owned();
    tag_write.append(render_u128(tag as u128).as_str());
    tag_write.append("u32, __writer)?;");
    assert(tag_write@ == tag_encode(i as int));
    let mut arm = "Self::".to_owned();
    arm.append(variant.name.as_str());
    match &variant.shape {
        Shape::Unit => {
            arm.append(" => { ");
            arm.append(tag_write.as_str());
            arm.append(" },");
        },
        Shape::Tuple(count) => {
            arm.append("(");
            arm.append(tuple_pattern(*count).as_str());
            arm.append(") => { ");
            arm.append(tag_write.as_str());
            arm.append(" ");
            arm.append(tuple_binding_encodes(*count).as_str());
            arm.append(" },");
        },
        Shape::Named(fields) => {
            arm.append(" { ");
            arm.append(named_pattern(fields).as_str());
            arm.append(" } => { ");
            arm.append(tag_write.as_str());
            arm.append(" ");
            arm.append(named_binding_encodes(fields).as_str());
            arm.append(" },");
        },
    }
    assert(arm@ =~= encode_arm(i as int, *variant));
    arm
}

/// Encode statements for an enum body: `match self { .. }`, where each arm
/// writes the variant's `u32` declaration-index tag, then its fields in order.
pub fn enum_encode_statements(variants: &[Variant]) -> (r: String)
    ensures
        r@ == enum_encode_text(variants@),
{
    let mut arms = String::new();
    let mut i: usize = 0;
    while i < variants.len()
        invariant
            i <= variants@.len(),
            arms@ == join(variants@.subrange(0, i as int), encode_arm_pieces()),
        decreases variants@.len() - i,
    {
        proof {
            lemma_join_step(variants@, i as int, encode_arm_pieces());
        }
        let ghost prev = arms@;
        arms.append(write_encode_arm(i, &variants[i]).as_str());
        assert(arms@ =~= prev + encode_arm_pieces()(i as int, variants@[i as int]));
        i = i + 1;
    }
    proof {
        lemma_join_full(variants@, encode_arm_pieces());
    }
    let mut out = "match self { ".to_owned();
    out.append(arms.as_str());
    out.append(" }");
    out
}

/// The value of the variant at a tag, each field decoded in turn.
pub open spec fn decode_construct(v: Variant) -> Seq<char> {
    match v.shape {
        Shape::Unit => "Self::"@ + v.name@,
        Shape::Tuple(c) => "Self::"@ + v.name@ + "("@ + join_range(c as nat, index_decode_pieces()) + ")"@,
        Shape::Named(fs) => "Self::"@ + v.name@ + " { "@ + join(fs@, named_decode_pieces()) + " }"@,
    }
}

/// The decode arms of the variants, one per tag.
pub open spec fn decode_arm_pieces() -> spec_fn(int, Variant) -> Seq<char> {
    |i: int, v: Variant| tag_text(i) + "u32 => "@ + decode_construct(v) + ","@
}

/// The decode body for an enum: read the `u32` tag, then build the matching
/// variant; an unknown tag is an `invalid_value` codec error.
pub open spec fn enum_decode_text(name: Seq<char>, variants: Seq<Variant>) -> Seq<char> {
    "let __tag: u32 = ::reliakit_codec::CanonicalDecode::decode(__reader)?;\n::core::result::Result::Ok(match __tag {\n"@
        + join(variants, decode_arm_pieces())
        + "\n_ => return ::core::result::Result::Err(::reliakit_codec::CodecError::invalid_value("@
        + debug_quoted("reliakit-derive: unknown variant tag for "@ + name) + ")),\n})"@
}

fn write_decode_arm(i: usize, variant: &Variant) -> (r: String)
    ensures
        r@ == decode_arm_pieces()(i as int, *variant),
{
    let tag = i as u32;
    let mut arm = render_u128(tag as u128);
    arm.append("u32 => ");
    arm.append("Self::");
    arm.append(variant.name.as_str());
    match &variant.shape {
        Shape::Unit => {},
        Shape::Tuple(count) => {
            arm.append("(");
            arm.append(tuple_decode_inits(*count).as_str());
            arm.append(")");
        },
        Shape::Named(fields) => {
            arm.append(" { ");
            arm.append(named_decode_inits(fields).as_str());
            arm.append(" }");
        },
    }
    arm.append(",");
    assert(arm@ =~= decode_arm_pieces()(i as int, *variant));
    arm
}

/// The decode body for an enum: read the `u32` tag, then build the matching
/// variant. An unknown tag is an `invalid_value` codec error.
pub fn enum_decode_value(name: &str, variants: &[Variant]) -> (r: String)
    ensures
        r@ == enum_decode_text(name@, variants@),
{
    let mut arms = String::new();
    let mut i: usize = 0;
    while i < variants.len()
        invariant
            i <= variants@.len(),
            arms@ == join(variants@.subrange(0, i as int), decode_arm_pieces()),
        decreases variants@.len() - i,
    {
        proof {
            lemma_join_step(variants@, i as int, decode_arm_pieces());
        }
        let ghost prev = arms@;
        arms.append(write_decode_arm(i, &variants[i]).as_str());
        assert(arms@ =~= prev + decode_arm_pieces()(i as int, variants@[i as int]));
        i = i + 1;
    }
    proof {
        lemma_join_full(variants@, decode_arm_pieces());
    }
    let mut message = "reliakit-derive: unknown variant tag for ".to_owned();
    message.append(name);
    let mut out = "let __tag: u32 = ::reliakit_codec::CanonicalDecode::decode(__reader)?;\n::core::result::Result::Ok(match __tag {\n".to_owned();
    out.append(arms.as_str());
    out.append("\n_ => return ::core::result::Result::Err(::reliakit_codec::CodecError::invalid_value(");
    out.append(quote(message.as_str()).as_str());
    out.append(")),\n})");
    out
}

/// The canonical codec ignores `rename` and `skip`: structs whose named
/// fields have the same names, in the same order, get the same canonical
/// encode statements and decode body.
pub proof fn law_canonical_ignores_field_options(a: Vec<NamedField>, b: Vec<NamedField>)
    requires
        a@.len() == b@.len(),
        forall|i: int| 0 <= i < a@.len() ==> (#[trigger] a@[i]).name == b@[i].name,
    ensures
        struct_encode_text(Shape::Named(a)) == struct_encode_text(Shape::Named(b)),
        struct_decode_text(Shape::Named(a)) == struct_decode_text(Shape::Named(b)),
{
    assert forall|i: int| 0 <= i < a@.len() implies named_encode_pieces()(i, a@[i])
        == named_encode_pieces()(i, b@[i]) by {}
    assert forall|i: int| 0 <= i < a@.len() implies named_decode_pieces()(i, a@[i])
        == named_decode_pieces()(i, b@[i]) by {}
    lemma_join_congruent(a@, b@, named_encode_pieces(), named_encode_pieces());
    lemma_join_congruent(a@, b@, named_decode_pieces(), named_decode_pieces());
}

} // verus!
