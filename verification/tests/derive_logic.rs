use reliakit::derive::attrs::{apply_field_option, parse_rename_value};
use reliakit::derive::codegen::{
    csv_decode_method, csv_encode_methods, csv_named_fields, struct_decode_value,
    struct_encode_statements,
};
use reliakit::derive::model::{
    Body, FieldAttr, NamedField, Parsed, Raw, RawBody, RawVariant, Shape, Variant,
};
use reliakit::derive::root::with_crate_root;
use reliakit::derive::validate::validate;

#[test]
fn with_crate_root_rewrites_only_with_a_root() {
    let code = "impl ::reliakit_csv::CsvEncode for X { \
                fn header() -> ::reliakit_csv::__private::Vec {} } \
                ::reliakit_codec::CanonicalEncode ::reliakit_json::JsonEncode";
    // No root → unchanged (the default, backward compatible).
    assert_eq!(with_crate_root(code.to_string(), None), code);
    // Root → standalone crate prefixes resolve through the umbrella's submodules.
    let out = with_crate_root(code.to_string(), Some("reliakit"));
    assert!(out.contains("::reliakit::csv::CsvEncode"));
    assert!(out.contains("::reliakit::csv::__private::Vec"));
    assert!(out.contains("::reliakit::codec::CanonicalEncode"));
    assert!(out.contains("::reliakit::json::JsonEncode"));
    // The standalone forms are gone.
    assert!(!out.contains("::reliakit_csv"));
    assert!(!out.contains("::reliakit_codec"));
    assert!(!out.contains("::reliakit_json"));
}

fn enum_raw(variants: Vec<RawVariant>, saw_repr: bool, has_generics: bool) -> Raw {
    Raw {
        name: "E".to_string(),
        has_generics,
        saw_repr,
        body: RawBody::Enum(variants),
        crate_root: None,
    }
}

fn unit_variant(name: &str) -> RawVariant {
    RawVariant {
        name: name.to_string(),
        shape: Ok(Shape::Unit),
        has_discriminant: false,
    }
}

/// A plain named field with no `#[reliakit(...)]` options.
fn named(name: &str) -> NamedField {
    NamedField {
        name: name.to_string(),
        rename: None,
        skip: false,
    }
}

#[test]
fn rename_value_accepts_a_non_empty_string_literal() {
    assert_eq!(parse_rename_value("\"id\"").unwrap(), "id");
    // A renamed key may itself look like a keyword or contain spaces.
    assert_eq!(parse_rename_value("\"r#type\"").unwrap(), "r#type");
}

#[test]
fn rename_value_rejects_empty_and_non_string_literals() {
    assert!(
        parse_rename_value("\"\"")
            .unwrap_err()
            .contains("non-empty")
    );
    // A bare integer literal is not a string.
    assert!(
        parse_rename_value("1")
            .unwrap_err()
            .contains("must be a string literal")
    );
}

#[test]
fn field_option_applies_skip_and_rename() {
    let mut attr = FieldAttr::default();
    apply_field_option(&mut attr, "skip", None).unwrap();
    assert!(attr.skip);
    apply_field_option(&mut attr, "rename", Some("\"id\"")).unwrap();
    assert_eq!(attr.rename.as_deref(), Some("id"));
}

#[test]
fn field_option_rejects_bad_options() {
    let mut attr = FieldAttr::default();
    // `rename` with no value.
    assert!(
        apply_field_option(&mut attr, "rename", None)
            .unwrap_err()
            .contains("must be written")
    );
    // An option that is neither `skip` nor `rename`.
    assert!(
        apply_field_option(&mut attr, "nope", None)
            .unwrap_err()
            .contains("unknown")
    );
}

// `Parsed` deliberately has no `Debug`, so these avoid `unwrap`/`unwrap_err`.
fn err_of(raw: Raw) -> String {
    match validate(raw) {
        Err(message) => message,
        Ok(_) => panic!("expected validation to reject the item"),
    }
}

fn ok_of(raw: Raw) -> Parsed {
    match validate(raw) {
        Ok(parsed) => parsed,
        Err(message) => panic!("unexpected validation error: {message}"),
    }
}

#[test]
fn rejects_union() {
    let raw = Raw {
        name: "U".to_string(),
        has_generics: false,
        saw_repr: false,
        body: RawBody::Union,
        crate_root: None,
    };
    assert!(err_of(raw).contains("does not support unions"));
}

#[test]
fn rejects_generic_struct() {
    let raw = Raw {
        name: "S".to_string(),
        has_generics: true,
        saw_repr: false,
        body: RawBody::Struct(Shape::Unit),
        crate_root: None,
    };
    assert!(err_of(raw).contains("does not support generic types yet"));
}

#[test]
fn rejects_generic_enum() {
    let raw = enum_raw(vec![unit_variant("A")], false, true);
    assert!(err_of(raw).contains("does not support generic types yet"));
}

#[test]
fn rejects_repr_enum() {
    let raw = enum_raw(vec![unit_variant("A")], true, false);
    assert!(err_of(raw).contains("does not support `#[repr(...)]` on enums"));
}

#[test]
fn rejects_explicit_discriminant() {
    let raw = enum_raw(
        vec![RawVariant {
            name: "A".to_string(),
            shape: Ok(Shape::Unit),
            has_discriminant: true,
        }],
        false,
        false,
    );
    let err = err_of(raw);
    assert!(err.contains("does not support explicit enum discriminants"));
    assert!(err.contains("`A = ...`"));
}

#[test]
fn rejects_empty_enum() {
    let raw = enum_raw(vec![], false, false);
    assert!(err_of(raw).contains("cannot derive for an empty enum"));
}

#[test]
fn rejects_unsupported_variant_syntax() {
    let raw = enum_raw(
        vec![RawVariant {
            name: "A".to_string(),
            shape: Err("reliakit-derive: unsupported syntax in enum variant `A`".to_string()),
            has_discriminant: false,
        }],
        false,
        false,
    );
    assert!(err_of(raw).contains("unsupported syntax"));
}

#[test]
fn accepts_struct() {
    let raw = Raw {
        name: "S".to_string(),
        has_generics: false,
        saw_repr: false,
        body: RawBody::Struct(Shape::Named(vec![named("x")])),
        crate_root: None,
    };
    let parsed = ok_of(raw);
    assert_eq!(parsed.name, "S");
    assert!(matches!(parsed.body, Body::Struct(Shape::Named(_))));
}

#[test]
fn accepts_enum_preserving_variant_order() {
    let raw = enum_raw(
        vec![
            unit_variant("A"),
            RawVariant {
                name: "B".to_string(),
                shape: Ok(Shape::Tuple(1)),
                has_discriminant: false,
            },
            RawVariant {
                name: "C".to_string(),
                shape: Ok(Shape::Named(vec![named("id")])),
                has_discriminant: false,
            },
        ],
        false,
        false,
    );
    match ok_of(raw).body {
        Body::Enum(variants) => {
            let names: Vec<&str> = variants.iter().map(|v| v.name.as_str()).collect();
            assert_eq!(names, ["A", "B", "C"]);
        }
        Body::Struct(_) => panic!("expected an enum body"),
    }
}

#[test]
fn csv_rejects_non_named_structs_and_enums() {
    assert!(
        csv_named_fields(&Body::Struct(Shape::Tuple(2)), "CsvEncode")
            .unwrap_err()
            .contains("requires a struct with named fields")
    );
    assert!(
        csv_named_fields(&Body::Struct(Shape::Unit), "CsvDecode")
            .unwrap_err()
            .contains("named fields")
    );
    let enum_body = Body::Enum(vec![Variant {
        name: "A".to_string(),
        shape: Shape::Unit,
    }]);
    assert!(
        csv_named_fields(&enum_body, "CsvEncode")
            .unwrap_err()
            .contains("does not support enums")
    );
}

#[test]
fn json_rejects_enums() {
    let parsed = ok_of(enum_raw(vec![unit_variant("A")], false, false));
    assert!(
        parsed
            .json_encode_impl()
            .unwrap_err()
            .contains("does not support enums")
    );
    assert!(
        parsed
            .json_decode_impl()
            .unwrap_err()
            .contains("does not support enums")
    );
}

#[test]
fn csv_named_struct_builds_methods() {
    let body = Body::Struct(Shape::Named(vec![named("id"), named("r#type")]));
    let fields = csv_named_fields(&body, "CsvEncode").expect("named struct accepted");
    let enc = csv_encode_methods(fields);
    assert!(enc.contains("__header.push(\"id\")"));
    // The `r#` prefix is dropped for the column name but kept for field access.
    assert!(enc.contains("__header.push(\"type\")"));
    assert!(enc.contains("encode_field(&self.id)"));
    assert!(enc.contains("encode_field(&self.r#type)"));
    let dec = csv_decode_method(fields);
    assert!(dec.contains("__fields.len() != 2"));
    assert!(dec.contains("__fields[0]"));
    assert!(dec.contains("at_field(1)"));
}

#[test]
fn canonical_codec_ignores_rename_and_skip() {
    let plain = Shape::Named(vec![named("a"), named("b")]);
    let dressed = Shape::Named(vec![
        NamedField { name: "a".to_string(), rename: Some("x".to_string()), skip: false },
        NamedField { name: "b".to_string(), rename: None, skip: true },
    ]);
    assert_eq!(struct_encode_statements(&plain), struct_encode_statements(&dressed));
    assert_eq!(struct_decode_value(&plain), struct_decode_value(&dressed));
}
