//! Structural fields and resolved field proofs.
//!
//! `Fields` owns the source declaration shape. Resolution produces an owned
//! `Field` value carrying every fact later stages need, so semantic code never
//! reinterprets a bare index against an unrelated collection.

use vstd::prelude::*;

use crate::ast::{is_diagnostic, Error, Ident, LitInt, Span, Type};
use crate::text::text_eq;

verus! {

/// One field resolved from a structural field collection.
#[derive(Debug)]
pub struct Field {
    /// Zero based declaration position.
    pub index: usize,
    /// Source identifier for a named field.
    pub name: Option<Ident>,
    /// Declared Rust type of the field.
    pub ty: Type,
}

impl Field {
    /// Return the zero based declaration position.
    pub fn index(&self) -> (r: usize)
        ensures
            r == self.index,
    {
        self.index
    }

    /// Return the source identifier when the field is named.
    pub fn name(&self) -> (r: Option<&Ident>)
        ensures
            r == match self.name {
                Some(n) => Some(&n),
                None => None::<&Ident>,
            },
    {
        match &self.name {
            Some(n) => Some(n),
            None => None,
        }
    }

    /// Return the declared Rust type.
    pub fn ty(&self) -> (r: &Type)
        ensures
            *r == self.ty,
    {
        &self.ty
    }

    /// Duplicate this field proof.
    pub fn duplicate(&self) -> (r: Field)
        ensures
            r == *self,
    {
        let name = match &self.name {
            Some(n) => Some(n.duplicate()),
            None => None,
        };
        Field { index: self.index, name, ty: self.ty.duplicate() }
    }
}

/// A source level reference to a field.
#[derive(Debug)]
pub enum FieldRef {
    /// A named field reference.
    Named(Ident),
    /// A tuple field reference.
    Indexed {
        /// Parsed zero based field index.
        index: usize,
        /// Source literal that supplied the index.
        literal: LitInt,
    },
}

impl FieldRef {
    /// The source location of this selector.
    pub open spec fn spec_span(&self) -> Span {
        match self {
            FieldRef::Named(name) => name.span,
            FieldRef::Indexed { literal, .. } => literal.span,
        }
    }

    /// Return the source location of this selector.
    pub fn span(&self) -> (r: Span)
        ensures
            r == self.spec_span(),
    {
        match self {
            FieldRef::Named(name) => name.span,
            FieldRef::Indexed { literal, .. } => literal.span,
        }
    }

    /// Duplicate this selector.
    pub fn duplicate(&self) -> (r: FieldRef)
        ensures
            r == *self,
    {
        match self {
            FieldRef::Named(name) => FieldRef::Named(name.duplicate()),
            FieldRef::Indexed { index, literal } => FieldRef::Indexed { index: *index, literal: literal.duplicate() },
        }
    }
}

/// One named field in source declaration order.
#[derive(Debug)]
pub struct NamedField {
    /// Source identifier of the field.
    pub name: Ident,
    /// Declared Rust type of the field.
    pub ty: Type,
}

impl NamedField {
    /// Construct one named field.
    pub fn new(name: Ident, ty: Type) -> (r: NamedField)
        ensures
            r.name == name,
            r.ty == ty,
    {
        NamedField { name, ty }
    }

    /// Return the source identifier.
    pub fn name(&self) -> (r: &Ident)
        ensures
            *r == self.name,
    {
        &self.name
    }

    /// Return the declared Rust type.
    pub fn ty(&self) -> (r: &Type)
        ensures
            *r == self.ty,
    {
        &self.ty
    }
}

/// Structural fields for one source structure or enum variant.
#[derive(Debug)]
pub enum Fields {
    /// Named fields in declaration order.
    Named(Vec<NamedField>),
    /// Tuple field types in declaration order.
    Unnamed(Vec<Type>),
    /// A unit structure or variant.
    Unit,
}

/// Whether `i` is the first position in `fields` whose name is `text`.
pub open spec fn is_first_named(fields: Seq<NamedField>, text: Seq<char>, i: int) -> bool {
    &&& 0 <= i < fields.len()
    &&& fields[i].name.text@ == text
    &&& forall|j: int| 0 <= j < i ==> fields[j].name.text@ != text
}

impl Fields {
    /// The number of declared fields.
    pub open spec fn spec_len(&self) -> nat {
        match self {
            Fields::Named(fields) => fields@.len(),
            Fields::Unnamed(fields) => fields@.len(),
            Fields::Unit => 0,
        }
    }

    /// The field proof for one declaration position.
    pub open spec fn spec_at(&self, index: int) -> Option<Field> {
        match self {
            Fields::Named(fields) => if 0 <= index < fields@.len() {
                Some(Field { index: index as usize, name: Some(fields@[index].name), ty: fields@[index].ty })
            } else {
                None
            },
            Fields::Unnamed(fields) => if 0 <= index < fields@.len() {
                Some(Field { index: index as usize, name: None, ty: fields@[index] })
            } else {
                None
            },
            Fields::Unit => None,
        }
    }

    /// Whether `field` is the proof this collection gives for its position.
    pub open spec fn owns(&self, field: Field) -> bool {
        self.spec_at(field.index as int) == Some(field)
    }

    /// Whether a named collection declares a field called `text`.
    pub open spec fn declares(&self, text: Seq<char>) -> bool {
        match self {
            Fields::Named(fields) => exists|i: int| is_first_named(fields@, text, i),
            _ => false,
        }
    }

    /// The declaration position that a named lookup of `text` selects.
    pub open spec fn position_of(&self, text: Seq<char>) -> int {
        match self {
            Fields::Named(fields) => choose|i: int| is_first_named(fields@, text, i),
            _ => 0,
        }
    }

    /// Return the number of declared fields.
    pub fn len(&self) -> (r: usize)
        ensures
            r == self.spec_len(),
    {
        match self {
            Fields::Named(fields) => fields.len(),
            Fields::Unnamed(fields) => fields.len(),
            Fields::Unit => 0,
        }
    }

    /// Resolve one declaration position into an owned field proof.
    pub(crate) fn at(&self, index: usize) -> (r: Option<Field>)
        ensures
            r == self.spec_at(index as int),
    {
        match self {
            Fields::Named(fields) => if index < fields.len() {
                let field = &fields[index];
                Some(Field { index, name: Some(field.name.duplicate()), ty: field.ty.duplicate() })
            } else {
                None
            },
            Fields::Unnamed(fields) => if index < fields.len() {
                Some(Field { index, name: None, ty: fields[index].duplicate() })
            } else {
                None
            },
            Fields::Unit => None,
        }
    }

    /// Resolve every declared field in source order.
    pub fn resolved(&self) -> (r: Vec<Field>)
        ensures
            r@.len() == self.spec_len(),
            forall|i: int| 0 <= i < r@.len() ==> self.spec_at(i) == Some(#[trigger] r@[i]),
    {
        let n = self.len();
        let mut out: Vec<Field> = Vec::new();
        let mut i: usize = 0;
        while i < n
            invariant
                n == self.spec_len(),
                i <= n,
                out@.len() == i,
                forall|k: int| 0 <= k < i ==> self.spec_at(k) == Some(#[trigger] out@[k]),
            decreases n - i,
        {
            match self.at(i) {
                Some(field) => out.push(field),
                None => {},
            }
            i = i + 1;
        }
        out
    }

    /// Resolve a named field against this collection.
    pub fn named(&self, name: &Ident) -> (r: Result<Field, Error>)
        ensures
            r is Ok <==> self.spec_lookup_name(name.text@) is Ok,
            r matches Ok(f) ==> self.spec_lookup_name(name.text@) == Ok::<Field, Seq<char>>(f),
            r matches Err(e) ==> e@.len() == 1
                && is_diagnostic(e@[0], name.span, self.spec_lookup_name(name.text@)->Err_0),
    {
        match self {
            Fields::Named(fields) => {
                let mut i: usize = 0;
                while i < fields.len()
                    invariant
                        self is Named,
                        self->Named_0@ == fields@,
                        i <= fields@.len(),
                        forall|j: int| 0 <= j < i ==> fields@[j].name.text@ != name.text@,
                    decreases fields.len() - i,
                {
                    if text_eq(&fields[i].name.text, &name.text) {
                        proof {
                            let fs = fields@;
                            let p = self.position_of(name.text@);
                            assert(is_first_named(fs, name.text@, i as int));
                            assert(is_first_named(fs, name.text@, p));
                            if p < i as int {
                                assert(fs[p].name.text@ != name.text@);
                            } else if (i as int) < p {
                                assert(fs[i as int].name.text@ != name.text@);
                            }
                        }
                        let r = self.at(i);
                        match r {
                            Some(f) => return Ok(f),
                            None => {},
                        }
                    }
                    i = i + 1;
                }
                Err(Error::new(name.span, "unknown named field"))
            },
            Fields::Unnamed(_) => Err(Error::new(name.span, "named field reference used with tuple fields")),
            Fields::Unit => Err(Error::new(name.span, "unit fields cannot contain a field reference")),
        }
    }

    /// Resolve a tuple field and attach a source diagnostic span.
    pub(crate) fn indexed_at(&self, index: usize, span: Span) -> (r: Result<Field, Error>)
        ensures
            r matches Ok(f) ==> self is Unnamed && self.spec_at(index as int) == Some(f),
            r is Ok <==> (self is Unnamed && index < self.spec_len()),
            r matches Err(e) ==> e@.len() == 1 && is_diagnostic(e@[0], span, match self {
                Fields::Named(_) => "indexed field reference used with named fields"@,
                Fields::Unnamed(_) => "tuple field index is out of bounds"@,
                Fields::Unit => "unit fields cannot contain a field reference"@,
            }),
    {
        match self {
            Fields::Named(_) => Err(Error::new(span, "indexed field reference used with named fields")),
            Fields::Unnamed(_) => match self.at(index) {
                Some(f) => Ok(f),
                None => Err(Error::new(span, "tuple field index is out of bounds")),
            },
            Fields::Unit => Err(Error::new(span, "unit fields cannot contain a field reference")),
        }
    }

    /// What looking up the named field `text` gives: the selected field, or
    /// the diagnostic message explaining the failure.
    pub open spec fn spec_lookup_name(&self, text: Seq<char>) -> Result<Field, Seq<char>> {
        match self {
            Fields::Named(_) => if self.declares(text) {
                Ok(self.spec_at(self.position_of(text)).unwrap())
            } else {
                Err("unknown named field"@)
            },
            Fields::Unnamed(_) => Err("named field reference used with tuple fields"@),
            Fields::Unit => Err("unit fields cannot contain a field reference"@),
        }
    }

    /// A successful name lookup gives a proof owned by this collection.
    pub proof fn lemma_lookup_owns(&self, text: Seq<char>)
        ensures
            self.spec_lookup_name(text) matches Ok(f) ==> self.owns(f),
    {
        if self.spec_lookup_name(text) is Ok {
            let p = self.position_of(text);
            assert(is_first_named(self->Named_0@, text, p));
            assert(self->Named_0@.len() == self->Named_0.len());
        }
    }

    /// What resolving `field` against this collection gives: the selected
    /// field, or the diagnostic message explaining the failure.
    pub open spec fn spec_resolve(&self, field: FieldRef) -> Result<Field, Seq<char>> {
        match field {
            FieldRef::Named(name) => self.spec_lookup_name(name.text@),
            FieldRef::Indexed { index, .. } => match self {
                Fields::Named(_) => Err("indexed field reference used with named fields"@),
                Fields::Unnamed(_) => if index < self.spec_len() {
                    Ok(self.spec_at(index as int).unwrap())
                } else {
                    Err("tuple field index is out of bounds"@)
                },
                Fields::Unit => Err("unit fields cannot contain a field reference"@),
            },
        }
    }

    /// Resolve a source level selector against this collection.
    pub fn resolve(&self, field: FieldRef) -> (r: Result<Field, Error>)
        ensures
            r matches Ok(f) ==> self.spec_resolve(field) == Ok::<Field, Seq<char>>(f),
            r matches Err(e) ==> e@.len() == 1 && self.spec_resolve(field) is Err
                && is_diagnostic(e@[0], field.spec_span(), self.spec_resolve(field)->Err_0),
            r is Ok <==> self.spec_resolve(field) is Ok,
    {
        match field {
            FieldRef::Named(name) => self.named(&name),
            FieldRef::Indexed { index, literal } => self.indexed_at(index, literal.span),
        }
    }

    /// Resolve the sole declared field.
    pub fn sole(&self, fallback: Span) -> (r: Result<Field, Error>)
        ensures
            r is Ok <==> self.spec_len() == 1,
            r matches Ok(f) ==> self.spec_at(0) == Some(f),
            r matches Err(e) ==> e@.len() == 1 && is_diagnostic(e@[0], self.spec_declaration_span(fallback), "expected exactly one field"@),
    {
        let span = match self.declaration_span() {
            Some(s) => s,
            None => fallback,
        };
        if self.len() == 1 {
            match self.at(0) {
                Some(f) => Ok(f),
                None => Err(Error::new(span, "expected exactly one field")),
            }
        } else {
            Err(Error::new(span, "expected exactly one field"))
        }
    }

    /// The tuple field at `index` when the collection is unnamed.
    pub open spec fn spec_tuple_capture(&self, index: int) -> Option<Field> {
        if self is Unnamed {
            self.spec_at(index)
        } else {
            None
        }
    }

    /// Resolve a tuple capture only when the collection is unnamed and in
    /// bounds.
    pub fn tuple_capture(&self, index: usize) -> (r: Option<Field>)
        ensures
            r == self.spec_tuple_capture(index as int),
    {
        match self {
            Fields::Unnamed(_) => self.at(index),
            _ => None,
        }
    }

    /// The span covered by the declared fields, or `fallback` when there are
    /// none.
    pub open spec fn spec_declaration_span(&self, fallback: Span) -> Span {
        match self {
            Fields::Named(fields) => if fields@.len() > 0 {
                fields@[0].name.span.join_spec(fields@.last().ty.span)
            } else {
                fallback
            },
            Fields::Unnamed(fields) => if fields@.len() > 0 {
                fields@[0].span.join_spec(fields@.last().span)
            } else {
                fallback
            },
            Fields::Unit => fallback,
        }
    }

    /// Return the span covered by declared fields when one exists.
    fn declaration_span(&self) -> (r: Option<Span>)
        ensures
            r matches Some(s) ==> s == self.spec_declaration_span(s) && self.spec_len() > 0,
            r is None ==> self.spec_len() == 0,
    {
        match self {
            Fields::Named(fields) => if fields.len() > 0 {
                let first = fields[0].name.span;
                let last = fields[fields.len() - 1].ty.span;
                Some(first.join(last))
            } else {
                None
            },
            Fields::Unnamed(fields) => if fields.len() > 0 {
                let first = fields[0].span;
                let last = fields[fields.len() - 1].span;
                Some(first.join(last))
            } else {
                None
            },
            Fields::Unit => None,
        }
    }
}

} // verus!
