//! Rejecting the items the derives do not support.

use super::model::{Body, Parsed, Raw, RawBody, RawVariant, Variant, Shape};
use vstd::prelude::*;

verus! {

/// The message for a union.
pub const UNION_MSG: &'static str = "reliakit-derive does not support unions";

/// The message for a generic struct or enum.
pub const GENERIC_MSG: &'static str = "reliakit-derive does not support generic types yet";

/// The message for an enum with `#[repr(...)]`.
pub const REPR_MSG: &'static str = "reliakit-derive does not support `#[repr(...)]` on enums; variant tags are always the u32 declaration index";

/// The text before a variant name in the message for an explicit discriminant.
pub const DISCRIMINANT_HEAD: &'static str = "reliakit-derive does not support explicit enum discriminants (`";

/// The text after a variant name in the message for an explicit discriminant.
pub const DISCRIMINANT_TAIL: &'static str = " = ...`); variant tags are the u32 declaration index";

/// The message for an enum with no variants.
pub const EMPTY_ENUM_MSG: &'static str = "reliakit-derive cannot derive for an empty enum (there is no variant to encode or decode)";

/// The first reject message among the variants, in declaration order: an
/// explicit discriminant, or a variant whose syntax was not understood.
pub open spec fn variants_error(s: Seq<RawVariant>) -> Option<Seq<char>>
    decreases s.len(),
{
    if s.len() == 0 {
        None
    } else if s[0].has_discriminant {
        Some(DISCRIMINANT_HEAD@ + s[0].name@ + DISCRIMINANT_TAIL@)
    } else {
        match s[0].shape {
            Err(m) => Some(m@),
            Ok(_) => variants_error(s.drop_first()),
        }
    }
}

/// The reject message for an item, or `None` when it is supported.
pub open spec fn validation_error(raw: Raw) -> Option<Seq<char>> {
    match raw.body {
        RawBody::Union => Some(UNION_MSG@),
        RawBody::Struct(_) => if raw.has_generics {
            Some(GENERIC_MSG@)
        } else {
            None
        },
        RawBody::Enum(vs) => if raw.has_generics {
            Some(GENERIC_MSG@)
        } else if raw.saw_repr {
            Some(REPR_MSG@)
        } else {
            match variants_error(vs@) {
                Some(m) => Some(m),
                None => if vs@.len() == 0 {
                    Some(EMPTY_ENUM_MSG@)
                } else {
                    None
                },
            }
        },
    }
}

/// The validated variants keep the names and shapes of the raw ones, in order.
pub open spec fn variants_kept(raw: Seq<RawVariant>, out: Seq<Variant>) -> bool {
    &&& out.len() == raw.len()
    &&& forall|i: int|
        0 <= i < raw.len() ==> #[trigger] out[i].name == raw[i].name && raw[i].shape == Ok::<
            Shape,
            String,
        >(out[i].shape)
}

proof fn lemma_variants_error_skip(s: Seq<RawVariant>, i: int)
    requires
        0 <= i <= s.len(),
        forall|j: int|
            0 <= j < i ==> !(#[trigger] s[j]).has_discriminant && s[j].shape is Ok,
    ensures
        variants_error(s) == variants_error(s.subrange(i, s.len() as int)),
    decreases i,
{
    if i > 0 {
        lemma_variants_error_skip(s, i - 1);
        let t = s.subrange(i - 1, s.len() as int);
        assert(t[0] == s[i - 1]);
        assert(!s[i - 1].has_discriminant && s[i - 1].shape is Ok);
        assert(t.drop_first() =~= s.subrange(i, s.len() as int));
    } else {
        assert(s.subrange(0, s.len() as int) =~= s);
    }
}

/// With no reject message, no variant has a discriminant or an unread shape.
pub proof fn lemma_variants_ok(s: Seq<RawVariant>)
    requires
        variants_error(s) is None,
    ensures
        forall|j: int| 0 <= j < s.len() ==> !(#[trigger] s[j]).has_discriminant && s[j].shape is Ok,
    decreases s.len(),
{
    if s.len() > 0 {
        lemma_variants_ok(s.drop_first());
        assert forall|j: int| 0 <= j < s.len() implies !(#[trigger] s[j]).has_discriminant
            && s[j].shape is Ok by {
            if j > 0 {
                assert(s[j] == s.drop_first()[j - 1]);
            }
        }
    }
}

fn variants_check(vs: &Vec<RawVariant>) -> (r: Option<String>)
    ensures
        match variants_error(vs@) {
            Some(m) => r matches Some(e) && e@ == m,
            None => r is None,
        },
{
    let mut k: usize = 0;
    while k < vs.len()
        invariant
            k <= vs@.len(),
            forall|j: int| 0 <= j < k ==> !(#[trigger] vs@[j]).has_discriminant && vs@[j].shape is Ok,
        decreases vs@.len() - k,
    {
        let v = &vs[k];
        proof {
            lemma_variants_error_skip(vs@, k as int);
            let t = vs@.subrange(k as int, vs@.len() as int);
            assert(t[0] == vs@[k as int]);
        }
        if v.has_discriminant {
            let mut m = DISCRIMINANT_HEAD.to_owned();
            m.append(v.name.as_str());
            m.append(DISCRIMINANT_TAIL);
            return Some(m);
        }
        match &v.shape {
            Err(message) => {
                return Some(message.clone());
            },
            Ok(_) => {},
        }
        k = k + 1;
    }
    proof {
        lemma_variants_error_skip(vs@, k as int);
        assert(vs@.subrange(k as int, vs@.len() as int) =~= Seq::<RawVariant>::empty());
    }
    None
}

fn error_of(raw: &Raw) -> (r: Option<String>)
    ensures
        match validation_error(*raw) {
            Some(m) => r matches Some(e) && e@ == m,
            None => r is None,
        },
{
    match &raw.body {
        RawBody::Union => Some(UNION_MSG.to_owned()),
        RawBody::Struct(_) => if raw.has_generics {
            Some(GENERIC_MSG.to_owned())
        } else {
            None
        },
        RawBody::Enum(vs) => if raw.has_generics {
            Some(GENERIC_MSG.to_owned())
        } else if raw.saw_repr {
            Some(REPR_MSG.to_owned())
        } else {
            match variants_check(vs) {
                Some(m) => Some(m),
                None => if vs.len() == 0 {
                    Some(EMPTY_ENUM_MSG.to_owned())
                } else {
                    None
                },
            }
        },
    }
}

/// Validates a raw item, rejecting unsupported forms with a descriptive
/// message.
pub fn validate(raw: Raw) -> (r: Result<Parsed, String>)
    ensures
        match validation_error(raw) {
            Some(m) => r matches Err(e) && e@ == m,
            None => r matches Ok(p) && p.name == raw.name && p.crate_root == raw.crate_root
                && match raw.body {
                RawBody::Struct(shape) => p.body == Body::Struct(shape),
                RawBody::Enum(vs) => p.body matches Body::Enum(out) && variants_kept(vs@, out@),
                RawBody::Union => false,
            },
        },
{
    if let Some(e) = error_of(&raw) {
        return Err(e);
    }
    let Raw { name, body, crate_root, .. } = raw;
    match body {
        RawBody::Union => Err(UNION_MSG.to_owned()),
        RawBody::Struct(shape) => Ok(Parsed { name, body: Body::Struct(shape), crate_root }),
        RawBody::Enum(raw_variants) => {
            let ghost all = raw_variants@;
            proof {
                lemma_variants_ok(all);
            }
            let mut rest = raw_variants;
            let mut variants: Vec<Variant> = Vec::new();
            while rest.len() > 0
                invariant
                    variants@.len() + rest@.len() == all.len(),
                    rest@ == all.subrange(variants@.len() as int, all.len() as int),
                    variants_error(all) is None,
                    forall|j: int| 0 <= j < all.len() ==> (#[trigger] all[j]).shape is Ok,
                    forall|j: int|
                        0 <= j < variants@.len() ==> #[trigger] variants@[j].name == all[j].name
                            && all[j].shape == Ok::<Shape, String>(variants@[j].shape),
                decreases rest@.len(),
            {
                let ghost k = variants@.len();
                let raw_variant = rest.remove(0);
                assert(raw_variant == all[k as int]);
                match raw_variant.shape {
                    Ok(shape) => {
                        variants.push(Variant { name: raw_variant.name, shape });
                    },
                    Err(_) => {
                        assert(false);
                    },
                }
                assert(rest@ =~= all.subrange(variants@.len() as int, all.len() as int));
            }
            Ok(Parsed { name, body: Body::Enum(variants), crate_root })
        },
    }
}

} // verus!
