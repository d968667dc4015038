//! Source formatting syntax accepted by `#[error(...)]`.
//!
//! The input format model keeps the literal and the explicit Rust arguments
//! exactly as parsed. Capture interpretation belongs to semantic resolution,
//! while rendering belongs to expansion.

use vstd::prelude::*;

use crate::ast::{Ident, LitStr, Span};

verus! {

/// A source-level Rust format string and explicit arguments.
#[derive(Debug)]
pub struct Format {
    /// Source format string literal.
    pub literal: LitStr,
    /// Explicit Rust formatting arguments, in source order.
    pub arguments: Vec<Argument>,
}

/// One explicit Rust format argument.
#[derive(Debug)]
pub struct Argument {
    /// Optional explicit named-argument identifier.
    pub name: Option<Ident>,
    /// Rendered tokens of the Rust expression supplying the value.
    pub expression: String,
}

impl Format {
    /// Construct a source format.
    pub fn new(literal: LitStr, arguments: Vec<Argument>) -> (r: Format)
        ensures
            r.literal == literal,
            r.arguments@ == arguments@,
    {
        Format { literal, arguments }
    }

    /// Return the source literal span for diagnostics.
    pub fn span(&self) -> (r: Span)
        ensures
            r == self.literal.span,
    {
        self.literal.span
    }

    /// Consume this source format into its literal and explicit arguments.
    pub fn parts(self) -> (r: (LitStr, Vec<Argument>))
        ensures
            r.0 == self.literal,
            r.1@ == self.arguments@,
    {
        (self.literal, self.arguments)
    }
}

impl Argument {
    /// Construct one explicit argument.
    pub fn new(name: Option<Ident>, expression: &str) -> (r: Argument)
        ensures
            r.name == name,
            r.expression@ == expression@,
    {
        Argument { name, expression: String::from_str(expression) }
    }

    /// Return the explicit argument name when one was supplied.
    pub fn name(&self) -> (r: Option<&Ident>)
        ensures
            r == match self.name {
                Some(n) => Some(&n),
                None => None::<&Ident>,
            },
    {
        match &self.name {
            Some(n) => Some(n),
            None => None,
        }
    }

    /// Duplicate this argument.
    pub fn duplicate(&self) -> (r: Argument)
        ensures
            r == *self,
    {
        let name = match &self.name {
            Some(n) => Some(n.duplicate()),
            None => None,
        };
        Argument { name, expression: self.expression.clone() }
    }
}

} // verus!
