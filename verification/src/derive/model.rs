//! The shapes of the items the derives accept, before and after validation.

use vstd::prelude::*;

verus! {

/// One named field and the `#[reliakit(...)]` options on it. `rename` and
/// `skip` affect only the JSON and CSV derives; the canonical codec always
/// encodes every field in order.
#[derive(Debug)]
pub struct NamedField {
    /// The Rust field name, used to access the value (`self.<name>`).
    pub name: String,
    /// The wire key (JSON) or header (CSV) to use instead of the field name.
    pub rename: Option<String>,
    /// Omit from JSON/CSV output and supply `Default::default()` on decode.
    pub skip: bool,
}

/// The parsed options of `#[reliakit(...)]` attributes on a field.
pub struct FieldAttr {
    /// The value of `rename = "..."`, if given.
    pub rename: Option<String>,
    /// Whether `skip` was given.
    pub skip: bool,
}

impl Default for FieldAttr {
    fn default() -> (a: FieldAttr)
        ensures
            a.rename is None,
            !a.skip,
    {
        FieldAttr { rename: None, skip: false }
    }
}

/// The field shape of a struct body or of one enum variant.
pub enum Shape {
    /// Named fields, in declaration order.
    Named(Vec<NamedField>),
    /// Tuple fields, by count.
    Tuple(usize),
    /// No fields (unit struct or unit variant).
    Unit,
}

/// One validated enum variant: its name and field shape.
pub struct Variant {
    /// The variant name.
    pub name: String,
    /// The variant's fields.
    pub shape: Shape,
}

/// The validated body the derive will implement.
pub enum Body {
    /// A struct with the given field shape.
    Struct(Shape),
    /// An enum with the given variants, in declaration order.
    Enum(Vec<Variant>),
}

/// A validated item ready for code generation.
pub struct Parsed {
    /// The type name.
    pub name: String,
    /// The validated body.
    pub body: Body,
    /// The crate root from `#[reliakit(crate = "...")]`, if given: generated
    /// paths then resolve through it instead of the standalone crates.
    pub crate_root: Option<String>,
}

/// One enum variant as read from tokens, before validation.
pub struct RawVariant {
    /// The variant name.
    pub name: String,
    /// The variant's field shape, or a message if its syntax is unsupported.
    pub shape: Result<Shape, String>,
    /// Whether the variant carried an explicit `= discriminant`.
    pub has_discriminant: bool,
}

/// The item body as read from tokens, before validation.
pub enum RawBody {
    /// A struct with the given field shape.
    Struct(Shape),
    /// An enum with the given variants.
    Enum(Vec<RawVariant>),
    /// A union, whose body is never read.
    Union,
}

/// The whole item as read from tokens, before any semantic validation.
pub struct Raw {
    /// The type name.
    pub name: String,
    /// Whether generic parameters follow the name.
    pub has_generics: bool,
    /// Whether a `#[repr(...)]` attribute was seen.
    pub saw_repr: bool,
    /// The body.
    pub body: RawBody,
    /// The value of `#[reliakit(crate = "...")]`, if the item carried one.
    pub crate_root: Option<String>,
}

} // verus!
