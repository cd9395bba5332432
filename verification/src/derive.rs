//! The logic behind the `reliakit` derive macros: reading an item's shape from
//! its tokens, validating it, and writing the source of the generated impls.
//! Turning a compiler token stream into [`tokens::Tok`] trees, and the written
//! source back into tokens, is left to the macro entry points.


pub mod attrs;
pub mod codegen;
pub mod items;
pub mod join;
pub mod model;
pub mod root;
pub mod scan;
pub mod tokens;
pub mod validate;
