//! Index based field identity and the options read alongside it.
//!
//! A `FieldId` names a field by its declaration position within one
//! `Fields` collection; the collection records its shape once, and every
//! stored field agrees with it. Source containers, inline options, source
//! forwarding and validation proofs are expressed over these identities.

use vstd::prelude::*;

use crate::ast::{is_diagnostic, Error, Generics, Ident, Span, Type};
use crate::semantic::source::spec_single;
use crate::text::{text_eq, text_is};

verus! {

/// Identity of one field within the collection it was resolved from.
#[derive(Clone, Copy, Debug, PartialEq, Eq, Structural, PartialOrd, Ord, Hash)]
pub struct FieldId(pub usize);

impl FieldId {
    /// Return the zero based declaration position.
    pub fn index(self) -> (r: usize)
        ensures
            r == self.0,
    {
        self.0
    }

    /// Construct an identity from a zero based declaration position.
    pub fn from_index(index: usize) -> (r: FieldId)
        ensures
            r.0 == index,
    {
        FieldId(index)
    }
}

/// A source level reference to a field.
#[derive(Debug)]
pub enum FieldRef {
    /// A named field reference.
    Named(Ident),
    /// A tuple field reference by position.
    Indexed(usize),
}

/// Structural shape of a field collection.
#[derive(Clone, Copy, Debug, PartialEq, Eq, Structural)]
pub enum Shape {
    /// Named fields.
    Named,
    /// Tuple fields.
    Unnamed,
    /// No fields.
    Unit,
}

/// One declared field.
#[derive(Debug)]
pub struct Field {
    /// Field identifier, for a named field.
    pub name: Option<Ident>,
    /// Declared type.
    pub ty: Type,
}

impl Field {
    /// Return the field identifier, for a named field.
    pub fn name(&self) -> (r: Option<&Ident>)
        ensures
            r == match self.name {
                Some(n) => Some(&n),
                None => None::<&Ident>,
            },
    {
        match &self.name {
            Some(n) => Some(n),
            None => None,
        }
    }

    /// Return the declared type.
    pub fn ty(&self) -> (r: &Type)
        ensures
            *r == self.ty,
    {
        &self.ty
    }
}

/// Fields of one structure or variant, with their shape.
#[derive(Debug)]
pub struct Fields {
    /// Structural shape.
    pub shape: Shape,
    /// Declared fields in order.
    pub fields: Vec<Field>,
}

impl Fields {
    /// The shape agrees with every stored field: named collections hold only
    /// named fields, tuple collections only unnamed ones, and unit
    /// collections none.
    pub open spec fn wf(&self) -> bool {
        match self.shape {
            Shape::Named => forall|i: int| 0 <= i < self.fields@.len() ==> (#[trigger] self.fields@[i]).name is Some,
            Shape::Unnamed => forall|i: int| 0 <= i < self.fields@.len() ==> (#[trigger] self.fields@[i]).name is None,
            Shape::Unit => self.fields@.len() == 0,
        }
    }

    /// A named collection with these fields in order.
    pub fn named_fields(names: Vec<Ident>, types: Vec<Type>) -> (r: Fields)
        requires
            names@.len() == types@.len(),
        ensures
            r.wf(),
            r.shape == Shape::Named,
            r.fields@.len() == names@.len(),
            forall|i: int| 0 <= i < names@.len() ==> (#[trigger] r.fields@[i]) == (Field { name: Some(names@[i]), ty: types@[i] }),
    {
        let mut names = names;
        let mut types = types;
        let ghost all_names = names@;
        let ghost all_types = types@;
        let mut fields: Vec<Field> = Vec::new();
        let ghost mut i: int = 0;
        while names.len() > 0
            invariant
                0 <= i <= all_names.len(),
                all_names.len() == all_types.len(),
                names@ == all_names.skip(i),
                types@ == all_types.skip(i),
                fields@.len() == i,
                forall|k: int| 0 <= k < i ==> (#[trigger] fields@[k]) == (Field { name: Some(all_names[k]), ty: all_types[k] }),
            decreases names.len(),
        {
            let name = names.remove(0);
            let ty = types.remove(0);
            fields.push(Field { name: Some(name), ty });
            proof {
                assert(names@ =~= all_names.skip(i + 1));
                assert(types@ =~= all_types.skip(i + 1));
                i = i + 1;
            }
        }
        Fields { shape: Shape::Named, fields }
    }

    /// A tuple collection with these field types in order.
    pub fn unnamed_fields(types: Vec<Type>) -> (r: Fields)
        ensures
            r.wf(),
            r.shape == Shape::Unnamed,
            r.fields@.len() == types@.len(),
            forall|i: int| 0 <= i < types@.len() ==> (#[trigger] r.fields@[i]) == (Field { name: None, ty: types@[i] }),
    {
        let mut types = types;
        let ghost all = types@;
        let mut fields: Vec<Field> = Vec::new();
        let ghost mut i: int = 0;
        while types.len() > 0
            invariant
                0 <= i <= all.len(),
                types@ == all.skip(i),
                fields@.len() == i,
                forall|k: int| 0 <= k < i ==> (#[trigger] fields@[k]) == (Field { name: None, ty: all[k] }),
            decreases types.len(),
        {
            let ty = types.remove(0);
            fields.push(Field { name: None, ty });
            proof {
                assert(types@ =~= all.skip(i + 1));
                i = i + 1;
            }
        }
        Fields { shape: Shape::Unnamed, fields }
    }

    /// A collection without fields.
    pub fn unit() -> (r: Fields)
        ensures
            r.wf(),
            r.shape == Shape::Unit,
            r.fields@.len() == 0,
    {
        Fields { shape: Shape::Unit, fields: Vec::new() }
    }

    /// Return the structural shape.
    pub fn shape(&self) -> (r: Shape)
        ensures
            r == self.shape,
    {
        self.shape
    }

    /// Return the number of declared fields.
    pub fn len(&self) -> (r: usize)
        ensures
            r == self.fields@.len(),
    {
        self.fields.len()
    }

    /// Return the field that an identity of this collection names.
    pub fn get(&self, field: FieldId) -> (r: &Field)
        requires
            field.0 < self.fields@.len(),
        ensures
            *r == self.fields@[field.0 as int],
    {
        &self.fields[field.0]
    }

    /// Return the type of the field that an identity names.
    pub fn ty(&self, field: FieldId) -> (r: &Type)
        requires
            field.0 < self.fields@.len(),
        ensures
            *r == self.fields@[field.0 as int].ty,
    {
        self.get(field).ty()
    }

    /// Return the identifier of the field that an identity names.
    pub fn name(&self, field: FieldId) -> (r: Option<&Ident>)
        requires
            field.0 < self.fields@.len(),
        ensures
            r == match self.fields@[field.0 as int].name {
                Some(n) => Some(&n),
                None => None::<&Ident>,
            },
    {
        self.get(field).name()
    }

    /// Resolve the sole declared field; the failure is reported at `at`.
    pub fn sole(&self, at: Span) -> (r: Result<FieldId, Error>)
        ensures
            r is Ok <==> self.fields@.len() == 1,
            r matches Ok(id) ==> id.0 == 0,
            r matches Err(e) ==> e@ == seq![(at, "expected exactly one field"@)],
    {
        if self.fields.len() == 1 {
            Ok(FieldId::from_index(0))
        } else {
            let e = Error::new(at, "expected exactly one field");
            assert(e@ =~= seq![(at, "expected exactly one field"@)]);
            Err(e)
        }
    }

    /// Whether the field at position `i` is named `text`.
    pub open spec fn named_at(&self, i: int, text: Seq<char>) -> bool {
        &&& 0 <= i < self.fields@.len()
        &&& match self.fields@[i].name {
            Some(n) => n.text@ == text,
            None => false,
        }
    }

    /// The first position whose field is named `text`, if any.
    pub open spec fn position_named(&self, text: Seq<char>) -> Option<int> {
        if exists|i: int| self.named_at(i, text) && forall|j: int| 0 <= j < i ==> !self.named_at(j, text) {
            Some(choose|i: int| self.named_at(i, text) && forall|j: int| 0 <= j < i ==> !self.named_at(j, text))
        } else {
            None
        }
    }

    /// What resolving the named reference `name` gives: its position, or
    /// the diagnostic message.
    pub open spec fn spec_named(&self, name: Ident) -> Result<usize, Seq<char>> {
        match self.shape {
            Shape::Named => match self.position_named(name.text@) {
                Some(i) => Ok(i as usize),
                None => Err("unknown named field"@),
            },
            Shape::Unnamed => Err("named field reference used with tuple fields"@),
            Shape::Unit => Err("unit fields cannot contain a field reference"@),
        }
    }

    /// Resolve a named reference to the first field with that name.
    pub fn named(&self, name: &Ident) -> (r: Result<FieldId, Error>)
        ensures
            r matches Ok(id) ==> id.0 < self.fields@.len(),
            match self.spec_named(*name) {
                Ok(i) => r == Ok::<FieldId, Error>(FieldId(i)),
                Err(m) => r matches Err(e) && e@ == seq![(name.span, m)],
            },
    {
        match self.shape {
            Shape::Named => {
                let mut i: usize = 0;
                while i < self.fields.len()
                    invariant
                        i <= self.fields@.len(),
                        self.shape == Shape::Named,
                        forall|j: int| 0 <= j < i ==> !self.named_at(j, name.text@),
                    decreases self.fields.len() - i,
                {
                    let hit = match &self.fields[i].name {
                        Some(n) => text_eq(&n.text, &name.text),
                        None => false,
                    };
                    if hit {
                        proof {
                            assert(self.named_at(i as int, name.text@));
                            assert(self.named_at(i as int, name.text@) && forall|j: int| 0 <= j < i ==> !self.named_at(j, name.text@));
                            let p = self.position_named(name.text@)->Some_0;
                            assert(self.named_at(p, name.text@) && forall|j: int| 0 <= j < p ==> !self.named_at(j, name.text@));
                            if p < i {
                                assert(!self.named_at(p, name.text@));
                            } else if i < p {
                                assert(!self.named_at(i as int, name.text@));
                            }
                        }
                        return Ok(FieldId::from_index(i));
                    }
                    i = i + 1;
                }
                let e = Error::new(name.span, "unknown named field");
                assert(e@ =~= seq![(name.span, "unknown named field"@)]);
                Err(e)
            },
            Shape::Unnamed => {
                let e = Error::new(name.span, "named field reference used with tuple fields");
                assert(e@ =~= seq![(name.span, "named field reference used with tuple fields"@)]);
                Err(e)
            },
            Shape::Unit => {
                let e = Error::new(name.span, "unit fields cannot contain a field reference");
                assert(e@ =~= seq![(name.span, "unit fields cannot contain a field reference"@)]);
                Err(e)
            },
        }
    }

    /// What resolving the position `index` gives: the position, or the
    /// diagnostic message.
    pub open spec fn spec_indexed(&self, index: usize) -> Result<usize, Seq<char>> {
        match self.shape {
            Shape::Named => Err("indexed field reference used with named fields"@),
            Shape::Unnamed => if index < self.fields@.len() {
                Ok(index)
            } else {
                Err("tuple field index is out of bounds"@)
            },
            Shape::Unit => Err("unit fields cannot contain a field reference"@),
        }
    }

    /// Resolve a tuple position; failures are reported at `at`.
    pub fn indexed(&self, index: usize, at: Span) -> (r: Result<FieldId, Error>)
        ensures
            r matches Ok(id) ==> id.0 < self.fields@.len(),
            match self.spec_indexed(index) {
                Ok(i) => r == Ok::<FieldId, Error>(FieldId(i)),
                Err(m) => r matches Err(e) && e@ == seq![(at, m)],
            },
    {
        let message = match self.shape {
            Shape::Named => "indexed field reference used with named fields",
            Shape::Unnamed => if index < self.fields.len() {
                return Ok(FieldId::from_index(index));
            } else {
                "tuple field index is out of bounds"
            },
            Shape::Unit => "unit fields cannot contain a field reference",
        };
        let e = Error::new(at, message);
        assert(e@ =~= seq![(at, message@)]);
        Err(e)
    }

    /// Resolve a field reference; positional failures are reported at `at`.
    pub fn resolve(&self, field: FieldRef, at: Span) -> (r: Result<FieldId, Error>)
        ensures
            r matches Ok(id) ==> id.0 < self.fields@.len(),
            match field {
                FieldRef::Named(name) => match self.spec_named(name) {
                    Ok(i) => r == Ok::<FieldId, Error>(FieldId(i)),
                    Err(m) => r matches Err(e) && e@ == seq![(name.span, m)],
                },
                FieldRef::Indexed(index) => match self.spec_indexed(index) {
                    Ok(i) => r == Ok::<FieldId, Error>(FieldId(i)),
                    Err(m) => r matches Err(e) && e@ == seq![(at, m)],
                },
            },
    {
        match field {
            FieldRef::Named(name) => self.named(&name),
            FieldRef::Indexed(index) => self.indexed(index, at),
        }
    }
}

} // verus!

verus! {

/// Supported source container shapes.
#[derive(Clone, Copy, Debug, PartialEq, Eq, Structural)]
pub enum SourceShape {
    /// A source stored directly as `E`.
    Direct,
    /// A source stored as `Box<E>`.
    Boxed,
    /// A source stored as `Option<E>`.
    Optional,
    /// A source stored as `Option<Box<E>>`.
    OptionalBoxed,
}

impl SourceShape {
    /// The container shape of `field_type` and the error type inside it.
    pub open spec fn spec_inspect(field_type: Type) -> (SourceShape, Type) {
        match spec_single(field_type, "Option"@) {
            Some(optional) => match spec_single(optional, "Box"@) {
                Some(boxed) => (SourceShape::OptionalBoxed, boxed),
                None => (SourceShape::Optional, optional),
            },
            None => match spec_single(field_type, "Box"@) {
                Some(boxed) => (SourceShape::Boxed, boxed),
                None => (SourceShape::Direct, field_type),
            },
        }
    }

    /// Classify a source field type into its container shape and error type.
    pub fn inspect(field_type: &Type) -> (r: (SourceShape, Type))
        ensures
            r == Self::spec_inspect(*field_type),
    {
        let optional = container(field_type, "Option");
        match optional {
            Some(optional) => match container(optional, "Box") {
                Some(boxed) => (SourceShape::OptionalBoxed, boxed.duplicate()),
                None => (SourceShape::Optional, optional.duplicate()),
            },
            None => match container(field_type, "Box") {
                Some(boxed) => (SourceShape::Boxed, boxed.duplicate()),
                None => (SourceShape::Direct, field_type.duplicate()),
            },
        }
    }
}

/// The sole type argument of `target` when its last path segment is named
/// `expected`.
fn container<'a>(target: &'a Type, expected: &str) -> (r: Option<&'a Type>)
    ensures
        match spec_single(*target, expected@) {
            Some(t) => r matches Some(x) && *x == t,
            None => r is None,
        },
{
    match (&target.last_segment, &target.sole_argument) {
        (Some(last), Some(inner)) => if text_is(last, expected) {
            Some(&**inner)
        } else {
            None
        },
        _ => None,
    }
}

/// One source field of a collection, with its container shape.
#[derive(Debug)]
pub struct Source {
    /// Identity of the source field.
    pub field: FieldId,
    /// Container shape of the field type.
    pub shape: SourceShape,
    /// Error type inside the container.
    pub error_type: Type,
}

impl Source {
    /// Classify the source field `field` of `fields`.
    pub fn new(fields: &Fields, field: FieldId) -> (r: Source)
        requires
            field.0 < fields.fields@.len(),
        ensures
            r.field == field,
            (r.shape, r.error_type) == SourceShape::spec_inspect(fields.fields@[field.0 as int].ty),
    {
        let (shape, error_type) = SourceShape::inspect(fields.ty(field));
        Source { field, shape, error_type }
    }
}

/// The inline policy for generated methods.
#[derive(Clone, Copy, Debug, PartialEq, Eq, Structural)]
pub enum Inline {
    /// Emit ordinary `#[inline]`.
    Neutral,
    /// Emit `#[inline(never)]`.
    Never,
    /// Emit `#[inline(always)]`.
    Always,
}

/// The inline options of generated methods, read the same way as `Inline`.
pub type InlineOptions = Inline;

impl Default for Inline {
    /// Ordinary `#[inline]`.
    fn default() -> (r: Inline)
        ensures
            r == Inline::Neutral,
    {
        Inline::Neutral
    }
}

impl Inline {
    /// The policy that the identifier text names.
    pub open spec fn spec_parse(text: Seq<char>) -> Option<Inline> {
        if text == "neutral"@ {
            Some(Inline::Neutral)
        } else if text == "never"@ {
            Some(Inline::Never)
        } else if text == "always"@ {
            Some(Inline::Always)
        } else {
            None
        }
    }

    /// Parse the requested inline policy from its identifier.
    pub fn parse(ident: &Ident) -> (r: Result<Inline, Error>)
        ensures
            match Self::spec_parse(ident.text@) {
                Some(p) => r == Ok::<Inline, Error>(p),
                None => r matches Err(e) && e@ == seq![(ident.span, "expected `neutral`, `never` or `always`"@)],
            },
    {
        if text_is(&ident.text, "neutral") {
            Ok(Inline::Neutral)
        } else if text_is(&ident.text, "never") {
            Ok(Inline::Never)
        } else if text_is(&ident.text, "always") {
            Ok(Inline::Always)
        } else {
            let e = Error::new(ident.span, "expected `neutral`, `never` or `always`");
            assert(e@ =~= seq![(ident.span, "expected `neutral`, `never` or `always`"@)]);
            Err(e)
        }
    }
}

/// Whether a field's own source is forwarded.
#[derive(Clone, Copy, Debug, PartialEq, Eq, Structural)]
pub enum ForwardSource {
    /// No forwarding.
    No,
    /// Forward to the field.
    Yes,
}

impl Default for ForwardSource {
    /// No forwarding.
    fn default() -> (r: ForwardSource)
        ensures
            r == ForwardSource::No,
    {
        ForwardSource::No
    }
}

impl ForwardSource {
    /// Parse the forwarding option: only `forward` is accepted.
    pub fn parse(ident: &Ident) -> (r: Result<ForwardSource, Error>)
        ensures
            ident.text@ == "forward"@ ==> r == Ok::<ForwardSource, Error>(ForwardSource::Yes),
            ident.text@ != "forward"@ ==> (r matches Err(e) && e@ == seq![(
                ident.span,
                "expected just `source`, no internal further parameters"@,
            )]),
    {
        if text_is(&ident.text, "forward") {
            Ok(ForwardSource::Yes)
        } else {
            let e = Error::new(ident.span, "expected just `source`, no internal further parameters");
            assert(e@ =~= seq![(ident.span, "expected just `source`, no internal further parameters"@)]);
            Err(e)
        }
    }
}

/// Contribution of the generated type's own `Error` supertrait bounds.
#[derive(Clone, Copy, Debug)]
pub struct ErrorSelf;

impl ErrorSelf {
    /// Add the `Debug` and `Display` bounds that `Error` requires of `Self`.
    pub fn contribute(&self, generics: &mut Generics, root: &Vec<char>)
        ensures
            final(generics).impl_generics == old(generics).impl_generics,
            final(generics).type_generics == old(generics).type_generics,
            final(generics).where_clause is Some,
            final(generics).predicates() == old(generics).predicates().push(
                crate::expand::error::self_predicate(root@),
            ),
    {
        crate::expand::error::add_self_predicate(generics, root);
    }
}

/// Proof that a value passed its validation transition.
#[derive(Debug)]
pub struct Validated<T>(pub T);

impl<T> Validated<T> {
    /// Wrap a value at a validation boundary.
    pub fn new(value: T) -> (r: Validated<T>)
        ensures
            r.0 == value,
    {
        Validated(value)
    }

    /// Consume the proof and return the validated value.
    pub fn into_inner(self) -> (r: T)
        ensures
            r == self.0,
    {
        self.0
    }
}

} // verus!
