//! Validated error semantics carried into code generation.
//!
//! Every value here was built by validation against its own field
//! collection: field proofs, resolved formats and source containers need no
//! further lookup during expansion.

pub mod format;
pub mod source;
pub mod validate;

use vstd::prelude::*;

use crate::ast::{Generics, Ident, Path};
use crate::input::attribute::{ImportRoot, InlinePolicy};
use crate::input::field::{Field, Fields};
use crate::semantic::format::Resolved;
use crate::semantic::source::{Source, TransparentSource};

verus! {

/// A validated error derive target.
#[derive(Debug)]
pub enum Target {
    /// A validated structure.
    Struct(Box<Structure>),
    /// A validated enumeration.
    Enum(Enumeration),
}

/// Container wide generation options and the type they apply to.
#[derive(Debug)]
pub struct Header {
    /// Generated method inline policy.
    pub inline: InlinePolicy,
    /// Generated root path.
    pub import: ImportRoot,
    /// Error type identifier.
    pub name: Ident,
    /// Error type generics.
    pub generics: Generics,
}

impl Header {
    /// Construct a header.
    pub fn new(inline: InlinePolicy, import: ImportRoot, name: Ident, generics: Generics) -> (r: Header)
        ensures
            r == (Header { inline, import, name, generics }),
    {
        Header { inline, import, name, generics }
    }

    /// Consume the header into its components.
    pub fn parts(self) -> (r: (InlinePolicy, ImportRoot, Ident, Generics))
        ensures
            r == (self.inline, self.import, self.name, self.generics),
    {
        (self.inline, self.import, self.name, self.generics)
    }
}

/// A validated structure.
#[derive(Debug)]
pub struct Structure {
    /// Generation options and type identity.
    pub header: Header,
    /// Structural fields.
    pub fields: Fields,
    /// Display behavior.
    pub display: Display,
    /// Source behavior.
    pub source: ErrorSource,
    /// Automatic conversion, when requested.
    pub conversion: Option<Conversion>,
}

impl Structure {
    /// Construct a validated structure.
    pub fn new(header: Header, fields: Fields, display: Display, source: ErrorSource, conversion: Option<Conversion>) -> (r: Structure)
        ensures
            r == (Structure { header, fields, display, source, conversion }),
    {
        Structure { header, fields, display, source, conversion }
    }

    /// Consume the structure into its components.
    pub fn parts(self) -> (r: (Header, Fields, Display, ErrorSource, Option<Conversion>))
        ensures
            r == (self.header, self.fields, self.display, self.source, self.conversion),
    {
        (self.header, self.fields, self.display, self.source, self.conversion)
    }
}

/// A validated enumeration.
#[derive(Debug)]
pub struct Enumeration {
    /// Generation options and type identity.
    pub header: Header,
    /// Validated variants in declaration order.
    pub variants: Vec<Variant>,
}

impl Enumeration {
    /// Construct a validated enumeration.
    pub fn new(header: Header, variants: Vec<Variant>) -> (r: Enumeration)
        ensures
            r == (Enumeration { header, variants }),
    {
        Enumeration { header, variants }
    }

    /// Consume the enumeration into its components.
    pub fn parts(self) -> (r: (Header, Vec<Variant>))
        ensures
            r == (self.header, self.variants),
    {
        (self.header, self.variants)
    }
}

/// A validated enumeration variant.
#[derive(Debug)]
pub struct Variant {
    /// Variant identifier.
    pub name: Ident,
    /// Variant fields.
    pub fields: Fields,
    /// Display behavior.
    pub display: Display,
    /// Source behavior.
    pub source: ErrorSource,
    /// Automatic conversion, when requested.
    pub conversion: Option<Conversion>,
}

impl Variant {
    /// Construct a validated variant.
    pub fn new(name: Ident, fields: Fields, display: Display, source: ErrorSource, conversion: Option<Conversion>) -> (r: Variant)
        ensures
            r == (Variant { name, fields, display, source, conversion }),
    {
        Variant { name, fields, display, source, conversion }
    }

    /// Return the variant identifier.
    pub fn name(&self) -> (r: &Ident)
        ensures
            *r == self.name,
    {
        &self.name
    }

    /// Return the variant fields.
    pub fn fields(&self) -> (r: &Fields)
        ensures
            *r == self.fields,
    {
        &self.fields
    }

    /// Return the display behavior.
    pub fn display(&self) -> (r: &Display)
        ensures
            *r == self.display,
    {
        &self.display
    }

    /// Return the source behavior.
    pub fn source(&self) -> (r: &ErrorSource)
        ensures
            *r == self.source,
    {
        &self.source
    }

    /// Return the automatic conversion, when requested.
    pub fn conversion(&self) -> (r: Option<&Conversion>)
        ensures
            r == match self.conversion {
                Some(c) => Some(&c),
                None => None::<&Conversion>,
            },
    {
        match &self.conversion {
            Some(c) => Some(c),
            None => None,
        }
    }
}

/// Validated display behavior.
#[derive(Debug)]
pub enum Display {
    /// A resolved format string.
    Format(Resolved),
    /// Display forwarded to one field.
    Transparent(Field),
    /// A custom formatter function.
    Custom(Path),
}

/// Validated source behavior.
#[derive(Debug)]
pub enum ErrorSource {
    /// No source.
    Absent,
    /// An ordinary source field.
    Field(Source),
    /// A transparent source field whose own source is forwarded.
    Transparent(TransparentSource),
}

/// Validated automatic conversion from the sole field.
#[derive(Debug)]
pub struct Conversion {
    /// The sole field that receives the converted value.
    pub field: Field,
}

impl Conversion {
    /// Construct conversion semantics for one field.
    pub fn new(field: Field) -> (r: Conversion)
        ensures
            r == (Conversion { field }),
    {
        Conversion { field }
    }

    /// Return the field that receives the converted value.
    pub fn field(&self) -> (r: &Field)
        ensures
            *r == self.field,
    {
        &self.field
    }
}

} // verus!
