//! Error source container semantics.
//!
//! Source resolution consumes an owned resolved field proof and classifies its
//! Rust type into the supported direct, boxed, and optional containers. The
//! transparent source type excludes optional containers by construction.

use vstd::prelude::*;

use crate::ast::Type;
use crate::input::field::Field;
use crate::text::text_is;

verus! {

/// One resolved source field and its semantic error type.
#[derive(Debug)]
pub struct ErrorField {
    /// Resolved source field proof.
    pub field: Field,
    /// Semantic error type after supported container removal.
    pub error_type: Type,
}

impl ErrorField {
    /// Return the resolved source field.
    pub fn field(&self) -> (r: &Field)
        ensures
            *r == self.field,
    {
        &self.field
    }

    /// Return the semantic error type.
    pub fn error_type(&self) -> (r: &Type)
        ensures
            *r == self.error_type,
    {
        &self.error_type
    }
}

/// Supported ordinary source container states.
#[derive(Debug)]
pub enum Source {
    /// A source stored directly as `E`.
    Direct(ErrorField),
    /// A source stored as `Box<E>`.
    Boxed(ErrorField),
    /// A source stored as `Option<E>`.
    Optional(ErrorField),
    /// A source stored as `Option<Box<E>>`.
    OptionalBoxed(ErrorField),
}

/// Source states that are valid for transparent forwarding.
#[derive(Debug)]
pub enum TransparentSource {
    /// A transparent source stored directly as `E`.
    Direct(ErrorField),
    /// A transparent source stored as `Box<E>`.
    Boxed(ErrorField),
}

/// The sole type argument of `target` when it is a path type whose last
/// segment is named `expected` and carries exactly one type argument.
pub open spec fn spec_single(target: Type, expected: Seq<char>) -> Option<Type> {
    match (target.last_segment, target.sole_argument) {
        (Some(last), Some(inner)) => if last@ == expected {
            Some(*inner)
        } else {
            None
        },
        _ => None,
    }
}

/// Return the sole type argument for the expected container.
fn single<'a>(target: &'a Type, expected: &str) -> (r: Option<&'a Type>)
    ensures
        match spec_single(*target, expected@) {
            Some(t) => r matches Some(x) && *x == t,
            None => r is None,
        },
{
    match (&target.last_segment, &target.sole_argument) {
        (Some(last), Some(inner)) => if text_is(last, expected) {
            Some(&**inner)
        } else {
            None
        },
        _ => None,
    }
}

impl Source {
    /// The container classification of `field`: `Option<Box<E>>`,
    /// `Option<E>`, `Box<E>`, else `E` itself, with `E` as the error type.
    pub open spec fn spec_new(field: Field) -> Source {
        match spec_single(field.ty, "Option"@) {
            Some(optional) => match spec_single(optional, "Box"@) {
                Some(boxed) => Source::OptionalBoxed(ErrorField { field, error_type: boxed }),
                None => Source::Optional(ErrorField { field, error_type: optional }),
            },
            None => match spec_single(field.ty, "Box"@) {
                Some(boxed) => Source::Boxed(ErrorField { field, error_type: boxed }),
                None => Source::Direct(ErrorField { field, error_type: field.ty }),
            },
        }
    }

    /// Resolve source container semantics for one field proof.
    pub fn new(field: Field) -> (r: Source)
        ensures
            r == Self::spec_new(field),
    {
        let classified = match single(&field.ty, "Option") {
            Some(optional) => match single(optional, "Box") {
                Some(boxed) => (3u8, boxed.duplicate()),
                None => (2u8, optional.duplicate()),
            },
            None => match single(&field.ty, "Box") {
                Some(boxed) => (1u8, boxed.duplicate()),
                None => (0u8, field.ty.duplicate()),
            },
        };
        let (shape, error_type) = classified;
        let error_field = ErrorField { field, error_type };
        if shape == 3 {
            Source::OptionalBoxed(error_field)
        } else if shape == 2 {
            Source::Optional(error_field)
        } else if shape == 1 {
            Source::Boxed(error_field)
        } else {
            Source::Direct(error_field)
        }
    }

    /// The resolved source field and error type, whatever the container.
    pub open spec fn spec_inner(&self) -> ErrorField {
        match self {
            Source::Direct(f) => *f,
            Source::Boxed(f) => *f,
            Source::Optional(f) => *f,
            Source::OptionalBoxed(f) => *f,
        }
    }

    /// Return the resolved source field.
    pub fn field(&self) -> (r: &Field)
        ensures
            *r == self.spec_inner().field,
    {
        match self {
            Source::Direct(f) | Source::Boxed(f) | Source::Optional(f) | Source::OptionalBoxed(f) => f.field(),
        }
    }

    /// Return the semantic error type.
    pub fn error_type(&self) -> (r: &Type)
        ensures
            *r == self.spec_inner().error_type,
    {
        match self {
            Source::Direct(f) | Source::Boxed(f) | Source::Optional(f) | Source::OptionalBoxed(f) => f.error_type(),
        }
    }

    /// The transparent form of this source, absent for optional containers.
    pub open spec fn spec_into_transparent(self) -> Option<TransparentSource> {
        match self {
            Source::Direct(f) => Some(TransparentSource::Direct(f)),
            Source::Boxed(f) => Some(TransparentSource::Boxed(f)),
            Source::Optional(_) | Source::OptionalBoxed(_) => None,
        }
    }

    /// Convert this source into a transparent source when its shape permits it.
    pub fn into_transparent(self) -> (r: Option<TransparentSource>)
        ensures
            r == self.spec_into_transparent(),
    {
        match self {
            Source::Direct(f) => Some(TransparentSource::Direct(f)),
            Source::Boxed(f) => Some(TransparentSource::Boxed(f)),
            Source::Optional(_) | Source::OptionalBoxed(_) => None,
        }
    }
}

impl TransparentSource {
    /// The resolved source field and error type.
    pub open spec fn spec_inner(&self) -> ErrorField {
        match self {
            TransparentSource::Direct(f) => *f,
            TransparentSource::Boxed(f) => *f,
        }
    }

    /// Return the resolved source field.
    pub fn field(&self) -> (r: &Field)
        ensures
            *r == self.spec_inner().field,
    {
        match self {
            TransparentSource::Direct(f) | TransparentSource::Boxed(f) => f.field(),
        }
    }

    /// Return the semantic error type.
    pub fn error_type(&self) -> (r: &Type)
        ensures
            *r == self.spec_inner().error_type,
    {
        match self {
            TransparentSource::Direct(f) | TransparentSource::Boxed(f) => f.error_type(),
        }
    }
}

} // verus!
