use reliakit::derive::items::compile_error_source;
use reliakit::derive::model::{Body, Parsed, RawBody, Shape};
use reliakit::derive::scan::{classify, Kind};
use reliakit::derive::tokens::{count_fields, top_level_segments, Delim, Tok};

fn ident(s: &str) -> Tok {
    Tok::Ident(s.to_string())
}

fn punct(c: char) -> Tok {
    Tok::Punct(c, true)
}

fn lit(s: &str) -> Tok {
    Tok::Literal(s.to_string())
}

fn group(d: Delim, inner: Vec<Tok>) -> Tok {
    Tok::Group(d, inner)
}

fn point() -> Vec<Tok> {
    vec![
        ident("pub"),
        ident("struct"),
        ident("Point"),
        group(
            Delim::Brace,
            vec![ident("x"), punct(':'), ident("u16"), punct(','), ident("y"), punct(':'), ident("u16")],
        ),
    ]
}

fn parsed(tokens: &[Tok]) -> Parsed {
    match Parsed::from_tokens(tokens) {
        Ok(p) => p,
        Err(m) => panic!("unexpected reject: {m}"),
    }
}

fn rejected(tokens: &[Tok]) -> String {
    match Parsed::from_tokens(tokens) {
        Ok(_) => panic!("expected a reject"),
        Err(m) => m,
    }
}

#[test]
fn named_struct_canonical_impl_is_exact() {
    let p = parsed(&point());
    assert_eq!(p.name, "Point");
    assert_eq!(
        p.canonical_encode_impl(),
        "impl ::reliakit_codec::CanonicalEncode for Point {\nfn encode<__W: ::reliakit_codec::EncodeSink + ?Sized>(&self, __writer: &mut __W) -> ::core::result::Result<(), ::reliakit_codec::CodecError> {\n::reliakit_codec::CanonicalEncode::encode(&self.x, __writer)?;::reliakit_codec::CanonicalEncode::encode(&self.y, __writer)?;\n::core::result::Result::Ok(())\n}\n}"
    );
    assert_eq!(
        p.canonical_decode_impl(),
        "impl ::reliakit_codec::CanonicalDecode for Point {\nfn decode<__R: ::reliakit_codec::DecodeSource + ?Sized>(__reader: &mut __R) -> ::core::result::Result<Self, ::reliakit_codec::CodecError> {\n::core::result::Result::Ok(Self { x: ::reliakit_codec::CanonicalDecode::decode(__reader)?,y: ::reliakit_codec::CanonicalDecode::decode(__reader)?, })\n}\n}"
    );
}

#[test]
fn named_struct_json_and_csv_impls() {
    let p = parsed(&point());
    let enc = p.json_encode_impl().unwrap();
    assert!(enc.contains(
        "__object.insert(\"x\".into(), ::reliakit_json::JsonEncode::to_json_value(&self.x));"
    ));
    let dec = p.json_decode_impl().unwrap();
    assert!(dec.contains("__object.get(\"y\")"));
    assert!(dec.contains("missing_field(\"missing field `y`\")"));
    let csv = p.csv_encode_impl().unwrap();
    assert!(csv.starts_with("impl ::reliakit_csv::CsvEncode for Point {\n"));
    assert!(csv.contains("__header.push(\"x\");__header.push(\"y\");"));
    let csv_dec = p.csv_decode_impl().unwrap();
    assert!(csv_dec.contains("if __fields.len() != 2 {"));
}

#[test]
fn rename_and_skip_reach_the_generated_code() {
    let tokens = vec![
        ident("struct"),
        ident("Row"),
        group(
            Delim::Brace,
            vec![
                punct('#'),
                group(
                    Delim::Bracket,
                    vec![
                        ident("reliakit"),
                        group(Delim::Parenthesis, vec![ident("rename"), punct('='), lit("\"id\"")]),
                    ],
                ),
                ident("identifier"),
                punct(':'),
                ident("u32"),
                punct(','),
                punct('#'),
                group(Delim::Bracket, vec![ident("reliakit"), group(Delim::Parenthesis, vec![ident("skip")])]),
                ident("cached"),
                punct(':'),
                ident("u8"),
            ],
        ),
    ];
    let p = parsed(&tokens);
    match &p.body {
        Body::Struct(Shape::Named(fields)) => {
            assert_eq!(fields.len(), 2);
            assert_eq!(fields[0].rename.as_deref(), Some("id"));
            assert!(fields[1].skip);
        }
        _ => panic!("expected named fields"),
    }
    let json = p.json_encode_impl().unwrap();
    assert!(json.contains("__object.insert(\"id\".into()"));
    assert!(!json.contains("self.cached"));
    let dec = p.json_decode_impl().unwrap();
    assert!(dec.contains("cached: ::core::default::Default::default(),"));
    let csv_dec = p.csv_decode_impl().unwrap();
    assert!(csv_dec.contains("if __fields.len() != 1 {"));
    assert!(csv_dec.contains("identifier: ::reliakit_csv::CsvField::decode_field(__fields[0]).map_err(|__e| __e.at_field(0))?,"));
}

#[test]
fn enum_impls_tag_variants_by_index() {
    let tokens = vec![
        ident("enum"),
        ident("Message"),
        group(
            Delim::Brace,
            vec![
                ident("Ping"),
                punct(','),
                ident("Pong"),
                group(Delim::Parenthesis, vec![ident("u8")]),
                punct(','),
                ident("Data"),
                group(Delim::Brace, vec![ident("id"), punct(':'), ident("u32")]),
                punct(','),
            ],
        ),
    ];
    let p = parsed(&tokens);
    let enc = p.canonical_encode_impl();
    assert!(enc.contains("Self::Ping => { ::reliakit_codec::CanonicalEncode::encode(&0u32, __writer)?; },"));
    assert!(enc.contains("Self::Pong(__f0) => { ::reliakit_codec::CanonicalEncode::encode(&1u32, __writer)?; ::reliakit_codec::CanonicalEncode::encode(__f0, __writer)?; },"));
    assert!(enc.contains("Self::Data { id: __f0 } => { ::reliakit_codec::CanonicalEncode::encode(&2u32, __writer)?; ::reliakit_codec::CanonicalEncode::encode(__f0, __writer)?; },"));
    let dec = p.canonical_decode_impl();
    assert!(dec.contains("0u32 => Self::Ping,"));
    assert!(dec.contains("1u32 => Self::Pong(::reliakit_codec::CanonicalDecode::decode(__reader)?,),"));
    assert!(dec.contains("invalid_value(\"reliakit-derive: unknown variant tag for Message\")"));
    assert!(p.json_encode_impl().unwrap_err().contains("does not support enums"));
    assert!(p.csv_encode_impl().unwrap_err().contains("does not support enums"));
}

#[test]
fn classify_reports_rejects() {
    assert!(rejected(&[ident("fn")]).contains("expected a struct, enum, or union"));
    assert!(rejected(&[ident("struct")]).contains("expected a type name"));
    assert!(rejected(&[ident("struct"), ident("S"), ident("x")]).contains("unexpected struct body"));
    assert!(rejected(&[ident("enum"), ident("E"), punct(';')]).contains("expected a braced enum body"));
    let generic = [ident("struct"), ident("S"), punct('<'), ident("T"), punct('>'), punct(';')];
    assert!(rejected(&generic).contains("does not support generic types yet"));
    let union = [ident("union"), ident("U"), group(Delim::Brace, vec![])];
    assert!(rejected(&union).contains("does not support unions"));
    let repr = [
        punct('#'),
        group(Delim::Bracket, vec![ident("repr"), group(Delim::Parenthesis, vec![ident("u8")])]),
        ident("enum"),
        ident("E"),
        group(Delim::Brace, vec![ident("A")]),
    ];
    assert!(rejected(&repr).contains("`#[repr(...)]`"));
    let disc = [ident("enum"), ident("E"), group(Delim::Brace, vec![ident("A"), punct('='), lit("1")])];
    assert!(rejected(&disc).contains("`A = ...`"));
    let empty = [ident("enum"), ident("E"), group(Delim::Brace, vec![])];
    assert!(rejected(&empty).contains("empty enum"));
}

#[test]
fn bad_field_attributes_are_rejected() {
    let no_list = [
        ident("struct"),
        ident("S"),
        group(
            Delim::Brace,
            vec![punct('#'), group(Delim::Bracket, vec![ident("reliakit")]), ident("a"), punct(':'), ident("u8")],
        ),
    ];
    assert!(rejected(&no_list).contains("must be a parenthesized list"));
    let unknown = [
        ident("struct"),
        ident("S"),
        group(
            Delim::Brace,
            vec![
                punct('#'),
                group(Delim::Bracket, vec![ident("reliakit"), group(Delim::Parenthesis, vec![ident("nope")])]),
                ident("a"),
                punct(':'),
                ident("u8"),
            ],
        ),
    ];
    assert!(rejected(&unknown).contains("unknown `#[reliakit(...)]` field option"));
}

#[test]
fn crate_root_attribute_reroutes_paths() {
    let mut tokens = vec![
        punct('#'),
        group(
            Delim::Bracket,
            vec![
                ident("reliakit"),
                group(Delim::Parenthesis, vec![ident("crate"), punct('='), lit("\"reliakit\"")]),
            ],
        ),
    ];
    tokens.extend(point());
    let p = parsed(&tokens);
    assert_eq!(p.crate_root.as_deref(), Some("reliakit"));
    let enc = p.canonical_encode_impl();
    assert!(enc.contains("impl ::reliakit::codec::CanonicalEncode for Point"));
    assert!(!enc.contains("::reliakit_codec"));
}

#[test]
fn angle_bracket_commas_stay_in_their_segment() {
    let body = vec![
        ident("a"),
        punct(':'),
        ident("Result"),
        punct('<'),
        ident("u8"),
        punct(','),
        ident("u16"),
        punct('>'),
        punct(','),
        ident("b"),
        punct(':'),
        ident("u8"),
    ];
    assert_eq!(top_level_segments(&body), vec![(0, 8), (9, 12)]);
    let raw = classify(&[ident("struct"), ident("S"), group(Delim::Brace, body)]).unwrap_or_else(|m| panic!("{m}"));
    match raw.body {
        RawBody::Struct(Shape::Named(fields)) => {
            let names: Vec<&str> = fields.iter().map(|f| f.name.as_str()).collect();
            assert_eq!(names, ["a", "b"]);
        }
        _ => panic!("expected named fields"),
    }
    assert!(!raw.has_generics);
}

#[test]
fn tuple_and_unit_structs() {
    let tuple = [
        ident("struct"),
        ident("Pair"),
        group(Delim::Parenthesis, vec![ident("u8"), punct(','), ident("u16"), punct(',')]),
        punct(';'),
    ];
    assert_eq!(count_fields(&[ident("u8"), punct(','), ident("u16"), punct(',')]), 2);
    let p = parsed(&tuple);
    assert_eq!(
        p.json_encode_impl().unwrap(),
        "impl ::reliakit_json::JsonEncode for Pair {\nfn to_json_value(&self) -> ::reliakit_json::JsonValue {\n::reliakit_json::JsonValue::array([::reliakit_json::JsonEncode::to_json_value(&self.0),::reliakit_json::JsonEncode::to_json_value(&self.1),])\n}\n}"
    );
    assert!(p.csv_encode_impl().unwrap_err().contains("requires a struct with named fields"));
    let unit = parsed(&[ident("struct"), ident("Marker"), punct(';')]);
    assert!(unit.json_encode_impl().unwrap().contains("::reliakit_json::JsonValue::Null"));
    assert!(unit.canonical_decode_impl().contains("::core::result::Result::Ok(Self)"));
    let raw = classify(&[ident("struct"), ident("Marker"), punct(';')]).unwrap_or_else(|m| panic!("{m}"));
    assert!(matches!(raw.body, RawBody::Struct(Shape::Unit)));
    let _ = Kind::Struct;
}

#[test]
fn compile_error_quotes_its_message() {
    assert_eq!(compile_error_source("bad \"x\""), "::core::compile_error!(\"bad \\\"x\\\"\");");
}
