//! Reading an item's shape from its token trees.

use super::attrs::{apply_field_option, quoted_inner, rename_value, strip_quotes, RENAME_NO_VALUE, UNKNOWN_OPTION};
use super::model::{Body, FieldAttr, NamedField, Parsed, Raw, RawBody, RawVariant, Shape, Variant};
use super::validate::{
    lemma_variants_ok, validate, variants_error, variants_kept, DISCRIMINANT_HEAD, DISCRIMINANT_TAIL,
    EMPTY_ENUM_MSG, GENERIC_MSG, REPR_MSG, UNION_MSG,
};
use super::tokens::{
    count_fields, is_punct, lemma_segments_bounds, nonempty_count, same_ranges, segments,
    top_level_segments, Delim, Tok,
};
use crate::chars::str_eq;
use vstd::prelude::*;

verus! {

/// The message for a `#[reliakit]` field attribute without a parenthesized
/// list.
pub const ATTR_NOT_LIST: &'static str = "reliakit-derive: `#[reliakit(...)]` on a field must be a parenthesized list";

/// The options of `#[reliakit(...)]` on a field, as plain values.
pub struct AttrModel {
    pub rename: Option<Seq<char>>,
    pub skip: bool,
}

/// The options held by a [`FieldAttr`].
pub open spec fn attr_model(a: FieldAttr) -> AttrModel {
    AttrModel {
        rename: match a.rename {
            Some(r) => Some(r@),
            None => None,
        },
        skip: a.skip,
    }
}

/// Whether `t` is the identifier `x`.
pub open spec fn is_ident(t: Tok, x: Seq<char>) -> bool {
    t matches Tok::Ident(s) && s@ == x
}

/// The options after applying option `name`, with the rendered literal
/// `value` of its `= ...` argument if any; or the reject message.
pub open spec fn option_result(acc: AttrModel, name: Seq<char>, value: Option<Seq<char>>) -> Result<AttrModel, Seq<char>> {
    if name == "skip"@ {
        Ok(AttrModel { skip: true, ..acc })
    } else if name == "rename"@ {
        match value {
            Some(l) => match rename_value(l) {
                Ok(v) => Ok(AttrModel { rename: Some(v), ..acc }),
                Err(m) => Err(m),
            },
            None => Err(RENAME_NO_VALUE@),
        }
    } else {
        Err(UNKNOWN_OPTION@)
    }
}

/// The name of an option item: its first token if that is an identifier.
pub open spec fn option_name(item: Seq<Tok>) -> Seq<char> {
    match item[0] {
        Tok::Ident(x) => x@,
        _ => Seq::empty(),
    }
}

/// The rendered literal after `=` in an option item, if there is one.
pub open spec fn option_value(item: Seq<Tok>) -> Option<Seq<char>> {
    if item.len() >= 3 && is_punct(item[1], '=') {
        match item[2] {
            Tok::Literal(l) => Some(l@),
            _ => None,
        }
    } else {
        None
    }
}

/// The options after one comma-separated item; an empty item changes nothing.
pub open spec fn option_step(acc: AttrModel, item: Seq<Tok>) -> Result<AttrModel, Seq<char>> {
    if item.len() == 0 {
        Ok(acc)
    } else {
        option_result(acc, option_name(item), option_value(item))
    }
}

/// The options of the items at the ranges `segs` of `inner`, applied in
/// order, or the first reject message.
pub open spec fn options_over(inner: Seq<Tok>, segs: Seq<(int, int)>) -> Result<AttrModel, Seq<char>>
    decreases segs.len(),
{
    if segs.len() == 0 {
        Ok(AttrModel { rename: None, skip: false })
    } else {
        match options_over(inner, segs.drop_last()) {
            Err(m) => Err(m),
            Ok(a) => option_step(a, inner.subrange(segs.last().0, segs.last().1)),
        }
    }
}

proof fn lemma_options_error_stays(inner: Seq<Tok>, segs: Seq<(int, int)>, j: int)
    requires
        0 <= j <= segs.len(),
        options_over(inner, segs.subrange(0, j)) is Err,
    ensures
        options_over(inner, segs) == options_over(inner, segs.subrange(0, j)),
    decreases segs.len(),
{
    if j == segs.len() {
        assert(segs.subrange(0, j) =~= segs);
    } else {
        assert(segs.drop_last().subrange(0, j) =~= segs.subrange(0, j));
        lemma_options_error_stays(inner, segs.drop_last(), j);
    }
}

/// The options of one field attribute body `[ ... ]`: `None` unless it is
/// `reliakit(...)`, else the options or the reject message.
pub open spec fn field_attr(stream: Seq<Tok>) -> Option<Result<AttrModel, Seq<char>>> {
    if !(stream.len() > 0 && is_ident(stream[0], "reliakit"@)) {
        None
    } else if stream.len() > 1 {
        match stream[1] {
            Tok::Group(Delim::Parenthesis, inner) => Some(options_over(inner@, segments(inner@))),
            _ => Some(Err(ATTR_NOT_LIST@)),
        }
    } else {
        Some(Err(ATTR_NOT_LIST@))
    }
}

fn ident_is(t: &Tok, x: &str) -> (b: bool)
    ensures
        b == is_ident(*t, x@),
{
    match t {
        Tok::Ident(s) => str_eq(s.as_str(), x),
        _ => false,
    }
}

/// Parses the inner stream of one `#[...]` attribute on a field: `None` if it
/// is not a `reliakit(...)` attribute, else its options or a reject message.
pub fn field_reliakit_attr(stream: &[Tok]) -> (r: Option<Result<FieldAttr, String>>)
    ensures
        match field_attr(stream@) {
            None => r is None,
            Some(Err(m)) => r matches Some(Err(e)) && e@ == m,
            Some(Ok(a)) => r matches Some(Ok(x)) && attr_model(x) == a,
        },
{
    if stream.len() == 0 || !ident_is(&stream[0], "reliakit") {
        return None;
    }
    if stream.len() < 2 {
        return Some(Err(ATTR_NOT_LIST.to_owned()));
    }
    let inner = match &stream[1] {
        Tok::Group(Delim::Parenthesis, inner) => inner,
        _ => {
            return Some(Err(ATTR_NOT_LIST.to_owned()));
        },
    };
    proof {
        reveal_strlit("skip");
        reveal_strlit("rename");
        reveal_strlit("");
        lemma_segments_bounds(inner@);
    }
    let segs = top_level_segments(inner.as_slice());
    let ghost m = segments(inner@);
    assert(field_attr(stream@) == Some(options_over(inner@, m)));
    let mut attr = FieldAttr::default();
    let mut k: usize = 0;
    while k < segs.len()
        invariant
            same_ranges(segs@, m),
            m == segments(inner@),
            field_attr(stream@) == Some(options_over(inner@, m)),
            forall|j: int| 0 <= j < m.len() ==> 0 <= (#[trigger] m[j]).0 <= m[j].1 <= inner@.len(),
            k <= segs@.len(),
            options_over(inner@, m.subrange(0, k as int)) == Ok::<AttrModel, Seq<char>>(
                attr_model(attr),
            ),
        decreases segs@.len() - k,
    {
        proof {
            assert(m.subrange(0, k + 1).drop_last() =~= m.subrange(0, k as int));
            reveal_strlit("skip");
            reveal_strlit("rename");
            reveal_strlit("");
        }
        let (a, b) = segs[k];
        let item = vstd::slice::slice_subrange(inner.as_slice(), a, b);
        if item.len() > 0 {
            let name: &str = match &item[0] {
                Tok::Ident(x) => x.as_str(),
                _ => "",
            };
            let value: Option<&str> = if item.len() >= 3 && match &item[1] {
                Tok::Punct(c, _) => *c == '=',
                _ => false,
            } {
                match &item[2] {
                    Tok::Literal(l) => Some(l.as_str()),
                    _ => None,
                }
            } else {
                None
            };
            assert(name@ == option_name(item@));
            match apply_field_option(&mut attr, name, value) {
                Err(e) => {
                    proof {
                        lemma_options_error_stays(inner@, m, k + 1);
                    }
                    return Some(Err(e));
                },
                Ok(()) => {},
            }
        }
        k = k + 1;
    }
    proof {
        assert(m.subrange(0, m.len() as int) =~= m);
    }
    Some(Ok(attr))
}

/// The text of a rendered literal inside one pair of quotes, or all of it.
pub open spec fn lit_trimmed(s: Seq<char>) -> Seq<char> {
    match quoted_inner(s) {
        Some(v) => v,
        None => s,
    }
}

/// The crate root named by an item attribute body `reliakit(crate = "...")`,
/// if it is one and the value is not empty.
pub open spec fn crate_attr(stream: Seq<Tok>) -> Option<Seq<char>> {
    if stream.len() >= 2 && is_ident(stream[0], "reliakit"@) {
        match stream[1] {
            Tok::Group(Delim::Parenthesis, inner) => if inner@.len() >= 3 && is_ident(
                inner@[0],
                "crate"@,
            ) && is_punct(inner@[1], '=') {
                match inner@[2] {
                    Tok::Literal(l) => if lit_trimmed(l@).len() > 0 {
                        Some(lit_trimmed(l@))
                    } else {
                        None
                    },
                    _ => None,
                }
            } else {
                None
            },
            _ => None,
        }
    } else {
        None
    }
}

/// Whether an item attribute body is `repr(...)`.
pub open spec fn repr_attr(stream: Seq<Tok>) -> bool {
    stream.len() > 0 && is_ident(stream[0], "repr"@)
}

/// Returns `true` if an outer-attribute body `[ ... ]` is a `repr` attribute.
pub fn attr_is_repr(stream: &[Tok]) -> (b: bool)
    ensures
        b == repr_attr(stream@),
{
    stream.len() > 0 && ident_is(&stream[0], "repr")
}

/// Parses `reliakit(crate = "value")` from an attribute body, returning the
/// value; any other or malformed attribute gives `None`.
pub fn attr_reliakit_crate(stream: &[Tok]) -> (r: Option<String>)
    ensures
        match crate_attr(stream@) {
            Some(v) => r matches Some(s) && s@ == v,
            None => r is None,
        },
{
    if stream.len() < 2 || !ident_is(&stream[0], "reliakit") {
        return None;
    }
    let inner = match &stream[1] {
        Tok::Group(Delim::Parenthesis, inner) => inner,
        _ => {
            return None;
        },
    };
    if inner.len() < 3 || !ident_is(&inner[0], "crate") {
        return None;
    }
    match &inner[1] {
        Tok::Punct(c, _) => if *c != '=' {
            return None;
        },
        _ => {
            return None;
        },
    }
    match &inner[2] {
        Tok::Literal(l) => {
            let trimmed = match strip_quotes(l.as_str()) {
                Some(t) => t,
                None => l.as_str(),
            };
            if trimmed.unicode_len() > 0 {
                Some(trimmed.to_owned())
            } else {
                None
            }
        },
        _ => None,
    }
}

/// A named field, as plain values.
pub struct FieldModel {
    pub name: Seq<char>,
    pub rename: Option<Seq<char>>,
    pub skip: bool,
}

/// The plain values of a [`NamedField`].
pub open spec fn field_model(f: NamedField) -> FieldModel {
    FieldModel {
        name: f.name@,
        rename: match f.rename {
            Some(r) => Some(r@),
            None => None,
        },
        skip: f.skip,
    }
}

/// The fields `v` are the field models `fs`.
pub open spec fn fields_match(v: Seq<NamedField>, fs: Seq<FieldModel>) -> bool {
    &&& v.len() == fs.len()
    &&& forall|k: int| 0 <= k < v.len() ==> field_model(#[trigger] v[k]) == fs[k]
}

/// The options gathered from the `#[...]` attributes of a field segment,
/// from position `j` on: each `#` followed by a bracketed group is an
/// attribute; `skip` accumulates and a later `rename` replaces an earlier one.
pub open spec fn seg_attrs(seg: Seq<Tok>, j: int, acc: AttrModel) -> Result<AttrModel, Seq<char>>
    decreases seg.len() - j,
{
    if j + 1 >= seg.len() {
        Ok(acc)
    } else if is_punct(seg[j], '#') {
        match seg[j + 1] {
            Tok::Group(Delim::Bracket, inner) => match field_attr(inner@) {
                None => seg_attrs(seg, j + 1, acc),
                Some(Err(m)) => Err(m),
                Some(Ok(a)) => seg_attrs(
                    seg,
                    j + 1,
                    AttrModel {
                        skip: acc.skip || a.skip,
                        rename: if a.rename is Some {
                            a.rename
                        } else {
                            acc.rename
                        },
                    },
                ),
            },
            _ => seg_attrs(seg, j + 1, acc),
        }
    } else {
        seg_attrs(seg, j + 1, acc)
    }
}

/// The name of the field in a segment: the first identifier directly followed
/// by a lone `:`, from position `j` on.
pub open spec fn first_name(seg: Seq<Tok>, j: int) -> Option<Seq<char>>
    decreases seg.len() - j,
{
    if j + 1 >= seg.len() {
        None
    } else {
        match (seg[j], seg[j + 1]) {
            (Tok::Ident(x), Tok::Punct(':', true)) => Some(x@),
            _ => first_name(seg, j + 1),
        }
    }
}

/// The field a segment declares, if it names one, or a reject message from
/// its attributes.
pub open spec fn segment_field(seg: Seq<Tok>) -> Result<Option<FieldModel>, Seq<char>> {
    match seg_attrs(seg, 0, AttrModel { rename: None, skip: false }) {
        Err(m) => Err(m),
        Ok(a) => match first_name(seg, 0) {
            Some(n) => Ok(Some(FieldModel { name: n, rename: a.rename, skip: a.skip })),
            None => Ok(None),
        },
    }
}

/// The fields declared by the segments `segs` of `s`, in order, or the first
/// reject message.
pub open spec fn fields_over(s: Seq<Tok>, segs: Seq<(int, int)>) -> Result<Seq<FieldModel>, Seq<char>>
    decreases segs.len(),
{
    if segs.len() == 0 {
        Ok(Seq::empty())
    } else {
        match fields_over(s, segs.drop_last()) {
            Err(m) => Err(m),
            Ok(prev) => match segment_field(s.subrange(segs.last().0, segs.last().1)) {
                Err(m) => Err(m),
                Ok(None) => Ok(prev),
                Ok(Some(f)) => Ok(prev.push(f)),
            },
        }
    }
}

/// The named fields of a struct body, in declaration order.
pub open spec fn named_fields_model(s: Seq<Tok>) -> Result<Seq<FieldModel>, Seq<char>> {
    fields_over(s, segments(s))
}

fn segment_attrs(seg: &[Tok]) -> (r: Result<FieldAttr, String>)
    ensures
        match seg_attrs(seg@, 0, AttrModel { rename: None, skip: false }) {
            Ok(a) => r matches Ok(x) && attr_model(x) == a,
            Err(m) => r matches Err(e) && e@ == m,
        },
{
    let mut attr = FieldAttr::default();
    let mut j: usize = 0;
    while j < seg.len() && seg.len() - j > 1
        invariant
            j <= seg@.len(),
            seg_attrs(seg@, 0, AttrModel { rename: None, skip: false }) == seg_attrs(
                seg@,
                j as int,
                attr_model(attr),
            ),
        decreases seg@.len() - j,
    {
        if match &seg[j] {
            Tok::Punct(c, _) => *c == '#',
            _ => false,
        } {
            match &seg[j + 1] {
                Tok::Group(Delim::Bracket, inner) => match field_reliakit_attr(inner.as_slice()) {
                    None => {},
                    Some(Err(e)) => {
                        return Err(e);
                    },
                    Some(Ok(parsed)) => {
                        attr.skip = attr.skip || parsed.skip;
                        if parsed.rename.is_some() {
                            attr.rename = parsed.rename;
                        }
                    },
                },
                _ => {},
            }
        }
        j = j + 1;
    }
    Ok(attr)
}

fn segment_name(seg: &[Tok]) -> (r: Option<String>)
    ensures
        match first_name(seg@, 0) {
            Some(n) => r matches Some(s) && s@ == n,
            None => r is None,
        },
{
    let mut j: usize = 0;
    while j < seg.len() && seg.len() - j > 1
        invariant
            j <= seg@.len(),
            first_name(seg@, 0) == first_name(seg@, j as int),
        decreases seg@.len() - j,
    {
        match (&seg[j], &seg[j + 1]) {
            (Tok::Ident(x), Tok::Punct(c, alone)) => if *c == ':' && *alone {
                return Some(x.as_str().to_owned());
            },
            _ => {},
        }
        j = j + 1;
    }
    None
}

proof fn lemma_fields_error_stays(s: Seq<Tok>, segs: Seq<(int, int)>, j: int)
    requires
        0 <= j <= segs.len(),
        fields_over(s, segs.subrange(0, j)) is Err,
    ensures
        fields_over(s, segs) == fields_over(s, segs.subrange(0, j)),
    decreases segs.len(),
{
    if j == segs.len() {
        assert(segs.subrange(0, j) =~= segs);
    } else {
        assert(segs.drop_last().subrange(0, j) =~= segs.subrange(0, j));
        lemma_fields_error_stays(s, segs.drop_last(), j);
    }
}

/// Collects the named fields of a struct body in declaration order, with
/// their `#[reliakit(rename = "...")]` / `#[reliakit(skip)]` options; a
/// malformed `reliakit` attribute is a reject message.
pub fn named_fields(stream: &[Tok]) -> (r: Result<Vec<NamedField>, String>)
    ensures
        match named_fields_model(stream@) {
            Ok(fs) => r matches Ok(v) && fields_match(v@, fs),
            Err(m) => r matches Err(e) && e@ == m,
        },
{
    proof {
        lemma_segments_bounds(stream@);
    }
    let segs = top_level_segments(stream);
    let ghost m = segments(stream@);
    let mut fields: Vec<NamedField> = Vec::new();
    let mut k: usize = 0;
    while k < segs.len()
        invariant
            same_ranges(segs@, m),
            m == segments(stream@),
            forall|j: int| 0 <= j < m.len() ==> 0 <= (#[trigger] m[j]).0 <= m[j].1 <= stream@.len(),
            k <= segs@.len(),
            fields_over(stream@, m.subrange(0, k as int)) matches Ok(fs) && fields_match(
                fields@,
                fs,
            ),
        decreases segs@.len() - k,
    {
        proof {
            assert(m.subrange(0, k + 1).drop_last() =~= m.subrange(0, k as int));
        }
        let (a, b) = segs[k];
        let seg = vstd::slice::slice_subrange(stream, a, b);
        let attr = match segment_attrs(seg) {
            Ok(x) => x,
            Err(e) => {
                proof {
                    lemma_fields_error_stays(stream@, m, k + 1);
                }
                return Err(e);
            },
        };
        match segment_name(seg) {
            Some(name) => {
                let ghost before = fields@;
                let ghost fs = fields_over(stream@, m.subrange(0, k as int))->Ok_0;
                let field = NamedField { name, rename: attr.rename, skip: attr.skip };
                let ghost nf = field_model(field);
                fields.push(field);
                proof {
                    assert forall|q: int| 0 <= q < fields@.len() implies field_model(
                        #[trigger] fields@[q],
                    ) == fs.push(nf)[q] by {
                        if q < before.len() {
                            assert(fields@[q] == before[q]);
                        }
                    }
                }
            },
            None => {},
        }
        k = k + 1;
    }
    proof {
        assert(m.subrange(0, m.len() as int) =~= m);
    }
    Ok(fields)
}

/// The message for an enum variant without a name.
pub const NO_VARIANT_NAME: &'static str = "reliakit-derive: expected an enum variant name";

/// The message for a variant written in a way the derives do not read.
pub open spec fn unsupported_variant(name: Seq<char>) -> Seq<char> {
    "reliakit-derive: unsupported syntax in enum variant `"@ + name + "`"@
}

/// A field shape, as plain values.
pub enum ShapeModel {
    Named(Seq<FieldModel>),
    Tuple(nat),
    Unit,
}

/// The plain values of a [`Shape`].
pub open spec fn shape_model(s: Shape) -> ShapeModel {
    match s {
        Shape::Named(fs) => ShapeModel::Named(fs@.map_values(|f: NamedField| field_model(f))),
        Shape::Tuple(c) => ShapeModel::Tuple(c as nat),
        Shape::Unit => ShapeModel::Unit,
    }
}

/// An enum variant as read, as plain values.
pub struct RawVariantModel {
    pub name: Seq<char>,
    pub shape: Result<ShapeModel, Seq<char>>,
    pub has_discriminant: bool,
}

/// The plain values of a [`RawVariant`].
pub open spec fn raw_variant_model(v: RawVariant) -> RawVariantModel {
    RawVariantModel {
        name: v.name@,
        shape: match v.shape {
            Ok(s) => Ok(shape_model(s)),
            Err(m) => Err(m@),
        },
        has_discriminant: v.has_discriminant,
    }
}

/// The variants `v` are the variant models `ms`.
pub open spec fn variants_match(v: Seq<RawVariant>, ms: Seq<RawVariantModel>) -> bool {
    &&& v.len() == ms.len()
    &&& forall|k: int| 0 <= k < v.len() ==> raw_variant_model(#[trigger] v[k]) == ms[k]
}

/// The position of the first identifier of `seg` from `j` on.
pub open spec fn first_ident(seg: Seq<Tok>, j: int) -> Option<int>
    decreases seg.len() - j,
{
    if j >= seg.len() {
        None
    } else if seg[j] is Ident {
        Some(j)
    } else {
        first_ident(seg, j + 1)
    }
}

/// The shape of a variant named `name`, from the token `next` after its
/// name (`None` at the end of the segment): the shape or a reject message,
/// and whether an explicit discriminant follows.
pub open spec fn variant_shape(name: Seq<char>, next: Option<Tok>) -> (Result<ShapeModel, Seq<char>>, bool) {
    match next {
        None => (Ok(ShapeModel::Unit), false),
        Some(Tok::Group(Delim::Parenthesis, inner)) => (Ok(ShapeModel::Tuple(nonempty_count(segments(inner@)))), false),
        Some(Tok::Group(Delim::Brace, inner)) => (
            match named_fields_model(inner@) {
                Ok(fs) => Ok(ShapeModel::Named(fs)),
                Err(m) => Err(m),
            },
            false,
        ),
        Some(Tok::Punct('=', _)) => (Ok(ShapeModel::Unit), true),
        _ => (Err(unsupported_variant(name)), false),
    }
}

/// The variant a segment declares; `None` for an empty segment.
pub open spec fn variant_of(seg: Seq<Tok>) -> Option<RawVariantModel> {
    if seg.len() == 0 {
        None
    } else {
        match first_ident(seg, 0) {
            None => Some(
                RawVariantModel {
                    name: Seq::empty(),
                    shape: Err(NO_VARIANT_NAME@),
                    has_discriminant: false,
                },
            ),
            Some(p) => {
                let name = match seg[p] {
                    Tok::Ident(x) => x@,
                    _ => Seq::empty(),
                };
                let next = if p + 1 < seg.len() {
                    Some(seg[p + 1])
                } else {
                    None
                };
                let (shape, disc) = variant_shape(name, next);
                Some(RawVariantModel { name, shape, has_discriminant: disc })
            },
        }
    }
}

/// The variants declared by the segments `segs` of `s`, in order.
pub open spec fn variants_over(s: Seq<Tok>, segs: Seq<(int, int)>) -> Seq<RawVariantModel>
    decreases segs.len(),
{
    if segs.len() == 0 {
        Seq::empty()
    } else {
        let prev = variants_over(s, segs.drop_last());
        match variant_of(s.subrange(segs.last().0, segs.last().1)) {
            None => prev,
            Some(v) => prev.push(v),
        }
    }
}

/// The variants of an enum body, read but not validated.
pub open spec fn raw_variants_model(s: Seq<Tok>) -> Seq<RawVariantModel> {
    variants_over(s, segments(s))
}

fn unsupported_message(name: &str) -> (r: String)
    ensures
        r@ == unsupported_variant(name@),
{
    let mut m = "reliakit-derive: unsupported syntax in enum variant `".to_owned();
    m.append(name);
    m.append("`");
    m
}

fn tok_is_ident(t: &Tok) -> (b: bool)
    ensures
        b == t is Ident,
{
    match t {
        Tok::Ident(_) => true,
        _ => false,
    }
}

fn read_variant(seg: &[Tok]) -> (r: RawVariant)
    requires
        seg@.len() > 0,
    ensures
        variant_of(seg@) == Some(raw_variant_model(r)),
{
    let mut p: usize = 0;
    while p < seg.len() && !tok_is_ident(&seg[p])
        invariant
            p <= seg@.len(),
            first_ident(seg@, 0) == first_ident(seg@, p as int),
        decreases seg@.len() - p,
    {
        p = p + 1;
    }
    if p == seg.len() {
        proof {
            reveal_strlit("");
        }
        return RawVariant {
            name: String::new(),
            shape: Err(NO_VARIANT_NAME.to_owned()),
            has_discriminant: false,
        };
    }
    let name: &str = match &seg[p] {
        Tok::Ident(x) => x.as_str(),
        _ => "",
    };
    let (shape, disc): (Result<Shape, String>, bool) = if p + 1 >= seg.len() {
        (Ok(Shape::Unit), false)
    } else {
        match &seg[p + 1] {
            Tok::Group(Delim::Parenthesis, inner) => (Ok(Shape::Tuple(count_fields(inner.as_slice()))), false),
            Tok::Group(Delim::Brace, inner) => match named_fields(inner.as_slice()) {
                Ok(fields) => {
                    let ghost fs = named_fields_model(inner@)->Ok_0;
                    assert(fields@.map_values(|f: NamedField| field_model(f)) =~= fs);
                    (Ok(Shape::Named(fields)), false)
                },
                Err(m) => (Err(m), false),
            },
            Tok::Punct(c, _) => if *c == '=' {
                (Ok(Shape::Unit), true)
            } else {
                (Err(unsupported_message(name)), false)
            },
            _ => (Err(unsupported_message(name)), false),
        }
    };
    RawVariant { name: name.to_owned(), shape, has_discriminant: disc }
}

/// Reads enum variants without validating them; empty segments (from a
/// trailing comma) are skipped.
pub fn raw_variants(stream: &[Tok]) -> (r: Vec<RawVariant>)
    ensures
        variants_match(r@, raw_variants_model(stream@)),
{
    proof {
        lemma_segments_bounds(stream@);
    }
    let segs = top_level_segments(stream);
    let ghost m = segments(stream@);
    let mut variants: Vec<RawVariant> = Vec::new();
    let mut k: usize = 0;
    while k < segs.len()
        invariant
            same_ranges(segs@, m),
            m == segments(stream@),
            forall|j: int| 0 <= j < m.len() ==> 0 <= (#[trigger] m[j]).0 <= m[j].1 <= stream@.len(),
            k <= segs@.len(),
            variants_match(variants@, variants_over(stream@, m.subrange(0, k as int))),
        decreases segs@.len() - k,
    {
        proof {
            assert(m.subrange(0, k + 1).drop_last() =~= m.subrange(0, k as int));
        }
        let (a, b) = segs[k];
        let seg = vstd::slice::slice_subrange(stream, a, b);
        if seg.len() > 0 {
            let ghost before = variants@;
            let ghost vs = variants_over(stream@, m.subrange(0, k as int));
            let v = read_variant(seg);
            let ghost nv = raw_variant_model(v);
            variants.push(v);
            proof {
                assert forall|q: int| 0 <= q < variants@.len() implies raw_variant_model(
                    #[trigger] variants@[q],
                ) == vs.push(nv)[q] by {
                    if q < before.len() {
                        assert(variants@[q] == before[q]);
                    }
                }
            }
        }
        k = k + 1;
    }
    proof {
        assert(m.subrange(0, m.len() as int) =~= m);
    }
    variants
}

/// The message for input without a `struct`, `enum` or `union` keyword.
pub const NO_ITEM: &'static str = "reliakit-derive: expected a struct, enum, or union";

/// The message for an item keyword not followed by a name.
pub const NO_NAME: &'static str = "reliakit-derive: expected a type name after the item keyword";

/// The message for a struct body that is neither braced, parenthesized, nor `;`.
pub const BAD_STRUCT: &'static str = "reliakit-derive: unexpected struct body";

/// The message for an enum without a braced body.
pub const BAD_ENUM: &'static str = "reliakit-derive: expected a braced enum body";

/// Which item keyword the derive input has.
#[derive(Debug, Clone, Copy, PartialEq, Eq, Structural)]
pub enum Kind {
    Struct,
    Enum,
    Union,
}

/// An item body as read, as plain values.
pub enum RawBodyModel {
    Struct(ShapeModel),
    Enum(Seq<RawVariantModel>),
    Union,
}

/// An item as read, as plain values.
pub struct RawModel {
    pub name: Seq<char>,
    pub has_generics: bool,
    pub saw_repr: bool,
    pub body: RawBodyModel,
    pub crate_root: Option<Seq<char>>,
}

/// The plain values of a [`Raw`] item.
pub open spec fn raw_model(r: Raw) -> RawModel {
    RawModel {
        name: r.name@,
        has_generics: r.has_generics,
        saw_repr: r.saw_repr,
        body: match r.body {
            RawBody::Struct(s) => RawBodyModel::Struct(shape_model(s)),
            RawBody::Enum(vs) => RawBodyModel::Enum(vs@.map_values(|v: RawVariant| raw_variant_model(v))),
            RawBody::Union => RawBodyModel::Union,
        },
        crate_root: match r.crate_root {
            Some(c) => Some(c@),
            None => None,
        },
    }
}

/// The item keyword found from position `i` on, skipping other identifiers
/// and tokens, with whether an outer attribute so far was `repr(...)` and
/// the crate root the last `reliakit(crate = ...)` attribute named.
pub open spec fn keyword_scan(s: Seq<Tok>, i: int, repr: bool, root: Option<Seq<char>>) -> Option<(int, Kind, bool, Option<Seq<char>>)>
    decreases s.len() - i,
{
    if i >= s.len() {
        None
    } else {
        match s[i] {
            Tok::Ident(x) => if x@ == "struct"@ {
                Some((i, Kind::Struct, repr, root))
            } else if x@ == "enum"@ {
                Some((i, Kind::Enum, repr, root))
            } else if x@ == "union"@ {
                Some((i, Kind::Union, repr, root))
            } else {
                keyword_scan(s, i + 1, repr, root)
            },
            Tok::Group(Delim::Bracket, inner) => keyword_scan(
                s,
                i + 1,
                repr || repr_attr(inner@),
                match crate_attr(inner@) {
                    Some(r) => Some(r),
                    None => root,
                },
            ),
            _ => keyword_scan(s, i + 1, repr, root),
        }
    }
}

/// The body of a struct from the token after its name, or a reject message.
pub open spec fn struct_body(next: Option<Tok>) -> Result<RawBodyModel, Seq<char>> {
    match next {
        Some(Tok::Group(Delim::Brace, inner)) => match named_fields_model(inner@) {
            Ok(fs) => Ok(RawBodyModel::Struct(ShapeModel::Named(fs))),
            Err(m) => Err(m),
        },
        Some(Tok::Group(Delim::Parenthesis, inner)) => Ok(
            RawBodyModel::Struct(ShapeModel::Tuple(nonempty_count(segments(inner@)))),
        ),
        Some(Tok::Punct(';', _)) => Ok(RawBodyModel::Struct(ShapeModel::Unit)),
        _ => Err(BAD_STRUCT@),
    }
}

/// The body of an enum from the token after its name, or a reject message.
pub open spec fn enum_body(next: Option<Tok>) -> Result<RawBodyModel, Seq<char>> {
    match next {
        Some(Tok::Group(Delim::Brace, inner)) => Ok(RawBodyModel::Enum(raw_variants_model(inner@))),
        _ => Err(BAD_ENUM@),
    }
}

/// The item that a derive input declares, read but not validated; a generic
/// item gets a placeholder body, as validation rejects it anyway.
pub open spec fn classify_model(s: Seq<Tok>) -> Result<RawModel, Seq<char>> {
    match keyword_scan(s, 0, false, None) {
        None => Err(NO_ITEM@),
        Some((k, kind, repr, root)) => if !(k + 1 < s.len() && s[k + 1] is Ident) {
            Err(NO_NAME@)
        } else {
            let name = match s[k + 1] {
                Tok::Ident(x) => x@,
                _ => Seq::empty(),
            };
            let g = k + 2;
            let has_generics = g < s.len() && is_punct(s[g], '<');
            let next = if g < s.len() {
                Some(s[g])
            } else {
                None
            };
            let body = if has_generics {
                Ok(
                    match kind {
                        Kind::Struct => RawBodyModel::Struct(ShapeModel::Unit),
                        Kind::Enum => RawBodyModel::Enum(Seq::empty()),
                        Kind::Union => RawBodyModel::Union,
                    },
                )
            } else {
                match kind {
                    Kind::Union => Ok(RawBodyModel::Union),
                    Kind::Struct => struct_body(next),
                    Kind::Enum => enum_body(next),
                }
            };
            match body {
                Err(m) => Err(m),
                Ok(b) => Ok(
                    RawModel { name, has_generics, saw_repr: repr, body: b, crate_root: root },
                ),
            }
        },
    }
}

fn find_item(tokens: &[Tok]) -> (r: Option<(usize, Kind, bool, Option<String>)>)
    ensures
        r matches Some(t) ==> t.0 < tokens.len(),
        match keyword_scan(tokens@, 0, false, None) {
            None => r is None,
            Some((k, kind, repr, root)) => r matches Some((k2, kind2, repr2, root2)) && k2 == k
                && kind2 == kind && repr2 == repr && match root2 {
                Some(x) => root == Some(x@),
                None => root is None,
            },
        },
{
    let mut saw_repr = false;
    let mut crate_root: Option<String> = None;
    let mut idx: usize = 0;
    while idx < tokens.len()
        invariant
            idx <= tokens@.len(),
            keyword_scan(tokens@, 0, false, None) == keyword_scan(
                tokens@,
                idx as int,
                saw_repr,
                match crate_root {
                    Some(x) => Some(x@),
                    None => None,
                },
            ),
        decreases tokens@.len() - idx,
    {
        match &tokens[idx] {
            Tok::Ident(x) => {
                if str_eq(x.as_str(), "struct") {
                    return Some((idx, Kind::Struct, saw_repr, crate_root));
                } else if str_eq(x.as_str(), "enum") {
                    return Some((idx, Kind::Enum, saw_repr, crate_root));
                } else if str_eq(x.as_str(), "union") {
                    return Some((idx, Kind::Union, saw_repr, crate_root));
                }
            },
            Tok::Group(Delim::Bracket, inner) => {
                if attr_is_repr(inner.as_slice()) {
                    saw_repr = true;
                }
                match attr_reliakit_crate(inner.as_slice()) {
                    Some(root) => {
                        crate_root = Some(root);
                    },
                    None => {},
                }
            },
            _ => {},
        }
        idx = idx + 1;
    }
    None
}

/// Reads a derive input into a [`Raw`] item: the keyword (skipping outer
/// attributes and visibility, noting `#[repr(...)]` and
/// `#[reliakit(crate = "...")]`), the name, whether generics follow, and the
/// body.
pub fn classify(tokens: &[Tok]) -> (r: Result<Raw, String>)
    ensures
        match classify_model(tokens@) {
            Ok(m) => r matches Ok(x) && raw_model(x) == m,
            Err(e) => r matches Err(x) && x@ == e,
        },
{
    let (k, kind, saw_repr, crate_root) = match find_item(tokens) {
        Some(found) => found,
        None => {
            return Err(NO_ITEM.to_owned());
        },
    };
    let n = k + 1;
    if n >= tokens.len() {
        return Err(NO_NAME.to_owned());
    }
    let name = match &tokens[n] {
        Tok::Ident(x) => x.as_str().to_owned(),
        _ => {
            return Err(NO_NAME.to_owned());
        },
    };
    let g = n + 1;
    let has_generics = g < tokens.len() && match &tokens[g] {
        Tok::Punct(c, _) => *c == '<',
        _ => false,
    };
    let body = if has_generics {
        match kind {
            Kind::Struct => RawBody::Struct(Shape::Unit),
            Kind::Enum => {
                let empty: Vec<RawVariant> = Vec::new();
                assert(empty@.map_values(|v: RawVariant| raw_variant_model(v)) =~= Seq::<
                    RawVariantModel,
                >::empty());
                RawBody::Enum(empty)
            },
            Kind::Union => RawBody::Union,
        }
    } else {
        match kind {
            Kind::Union => RawBody::Union,
            Kind::Struct => {
                if g >= tokens.len() {
                    return Err(BAD_STRUCT.to_owned());
                }
                match &tokens[g] {
                    Tok::Group(Delim::Brace, inner) => match named_fields(inner.as_slice()) {
                        Ok(fields) => {
                            let ghost fs = named_fields_model(inner@)->Ok_0;
                            assert(fields@.map_values(|f: NamedField| field_model(f)) =~= fs);
                            RawBody::Struct(Shape::Named(fields))
                        },
                        Err(e) => {
                            return Err(e);
                        },
                    },
                    Tok::Group(Delim::Parenthesis, inner) => RawBody::Struct(
                        Shape::Tuple(count_fields(inner.as_slice())),
                    ),
                    Tok::Punct(c, _) => if *c == ';' {
                        RawBody::Struct(Shape::Unit)
                    } else {
                        return Err(BAD_STRUCT.to_owned());
                    },
                    _ => {
                        return Err(BAD_STRUCT.to_owned());
                    },
                }
            },
            Kind::Enum => {
                if g >= tokens.len() {
                    return Err(BAD_ENUM.to_owned());
                }
                match &tokens[g] {
                    Tok::Group(Delim::Brace, inner) => {
                        let variants = raw_variants(inner.as_slice());
                        let ghost vs = raw_variants_model(inner@);
                        assert(variants@.map_values(|v: RawVariant| raw_variant_model(v)) =~= vs);
                        RawBody::Enum(variants)
                    },
                    _ => {
                        return Err(BAD_ENUM.to_owned());
                    },
                }
            },
        }
    };
    Ok(Raw { name, has_generics, saw_repr, body, crate_root })
}

/// The first reject message among variant models, in declaration order.
pub open spec fn variants_error_model(s: Seq<RawVariantModel>) -> Option<Seq<char>>
    decreases s.len(),
{
    if s.len() == 0 {
        None
    } else if s[0].has_discriminant {
        Some(DISCRIMINANT_HEAD@ + s[0].name + DISCRIMINANT_TAIL@)
    } else {
        match s[0].shape {
            Err(m) => Some(m),
            Ok(_) => variants_error_model(s.drop_first()),
        }
    }
}

/// The reject message for an item read from tokens, or `None` when the
/// derives support it.
pub open spec fn model_validation_error(m: RawModel) -> Option<Seq<char>> {
    match m.body {
        RawBodyModel::Union => Some(UNION_MSG@),
        RawBodyModel::Struct(_) => if m.has_generics {
            Some(GENERIC_MSG@)
        } else {
            None
        },
        RawBodyModel::Enum(vs) => if m.has_generics {
            Some(GENERIC_MSG@)
        } else if m.saw_repr {
            Some(REPR_MSG@)
        } else {
            match variants_error_model(vs) {
                Some(e) => Some(e),
                None => if vs.len() == 0 {
                    Some(EMPTY_ENUM_MSG@)
                } else {
                    None
                },
            }
        },
    }
}

/// The plain values of a validated body, in the shape of a raw one.
pub open spec fn body_model(b: Body) -> RawBodyModel {
    match b {
        Body::Struct(s) => RawBodyModel::Struct(shape_model(s)),
        Body::Enum(vs) => RawBodyModel::Enum(
            vs@.map_values(
                |v: Variant|
                    RawVariantModel {
                        name: v.name@,
                        shape: Ok(shape_model(v.shape)),
                        has_discriminant: false,
                    },
            ),
        ),
    }
}

proof fn lemma_variants_error_model(s: Seq<RawVariant>)
    ensures
        variants_error(s) == variants_error_model(s.map_values(|v: RawVariant| raw_variant_model(v))),
    decreases s.len(),
{
    if s.len() > 0 {
        lemma_variants_error_model(s.drop_first());
        assert(s.drop_first().map_values(|v: RawVariant| raw_variant_model(v)) =~= s.map_values(
            |v: RawVariant| raw_variant_model(v),
        ).drop_first());
    }
}

impl Parsed {
    /// Reads and validates a derive input: the item's reject message, or the
    /// validated item with the name, crate root and body that were read.
    pub fn from_tokens(tokens: &[Tok]) -> (r: Result<Parsed, String>)
        ensures
            match classify_model(tokens@) {
                Err(e) => r matches Err(x) && x@ == e,
                Ok(m) => match model_validation_error(m) {
                    Some(e) => r matches Err(x) && x@ == e,
                    None => r matches Ok(p) && p.name@ == m.name && body_model(p.body) == m.body
                        && match p.crate_root {
                        Some(c) => m.crate_root == Some(c@),
                        None => m.crate_root is None,
                    },
                },
            },
    {
        match classify(tokens) {
            Ok(raw) => {
                proof {
                    if raw.body is Enum {
                        lemma_variants_error_model(raw.body->Enum_0@);
                    }
                }
                let ghost rm = raw_model(raw);
                let ghost raw_copy = raw;
                let r = validate(raw);
                proof {
                    if r is Ok && raw_copy.body is Enum && r->Ok_0.body is Enum {
                        let vs = raw_copy.body->Enum_0@;
                        let out = r->Ok_0.body->Enum_0@;
                        lemma_variants_ok(vs);
                        assert(variants_kept(vs, out));
                        assert(out.map_values(
                            |v: Variant|
                                RawVariantModel {
                                    name: v.name@,
                                    shape: Ok(shape_model(v.shape)),
                                    has_discriminant: false,
                                },
                        ) =~= vs.map_values(|v: RawVariant| raw_variant_model(v)));
                    }
                }
                r
            },
            Err(e) => Err(e),
        }
    }
}

} // verus!
