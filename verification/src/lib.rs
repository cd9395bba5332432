//! Reliability building blocks with machine-checked contracts.

pub mod backoff;
pub mod bulkhead;
pub mod chars;
pub mod circuit;
pub mod collections;
pub mod csv;
pub mod derive;
pub mod decimal;
pub mod health;
pub mod json;
pub mod lex;
pub mod ordering;
pub mod primitives;
pub mod rolling;
pub mod secret;
pub mod time;
