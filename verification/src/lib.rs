//! Encoder from structured values to Lua table-literal text.
//!
//! The output format is defined by the spec functions of [`format`]; the
//! executable encoder in [`ser`] is proved to emit exactly that text.

pub mod error;
pub mod format;
pub mod laws;
pub mod parser;
pub mod ser;
pub mod text;
pub mod type_ser;
pub mod value;

