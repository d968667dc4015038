//! Parsing and syntax level classification for derive input.
//!
//! The input stage owns the source model, structural fields, diagnostics and
//! target classification. Its hand-off contains only declarations that are
//! syntactically coherent but may still require field resolution.

pub mod diagnostic;
pub mod field;
pub mod format;
pub mod attribute;
pub mod tokens;
pub mod target;
