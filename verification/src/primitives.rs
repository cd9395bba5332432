//! Validated primitive values: construct once at the boundary, then carry the
//! invariant in the type.

pub mod error;
pub mod numeric;
pub mod size_text;
pub mod bounded;
pub mod inline;
pub mod non_empty;
pub mod collections;
pub mod text;
pub mod uuid;
pub mod duration;
pub mod semver;
