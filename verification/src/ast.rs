//! Plain models of the Rust syntax that the derive reads.
//!
//! The adapter that receives compiler tokens fills these values; the library
//! only ever reads what is modelled here: identifier text, literal values,
//! rendered type text, the container structure of a type, and source spans.

use vstd::prelude::*;

verus! {

/// A source location, held as a range of span identifiers issued by the
/// adapter that received the compiler tokens.
#[derive(Clone, Copy, Debug, PartialEq, Eq, Structural)]
pub struct Span {
    /// First covered span identifier.
    pub first: usize,
    /// Last covered span identifier.
    pub last: usize,
}

impl Span {
    /// A span covering a single span identifier.
    pub fn new(id: usize) -> (r: Span)
        ensures
            r == (Span { first: id, last: id }),
    {
        Span { first: id, last: id }
    }

    /// The span that starts at `self` and ends at `other`.
    pub open spec fn join_spec(self, other: Span) -> Span {
        Span { first: self.first, last: other.last }
    }

    /// The span that starts at `self` and ends at `other`.
    pub fn join(self, other: Span) -> (r: Span)
        ensures
            r == self.join_spec(other),
    {
        Span { first: self.first, last: other.last }
    }
}

/// An identifier together with its source location.
#[derive(Debug)]
pub struct Ident {
    /// Identifier text as written (raw identifiers keep their `r#`).
    pub text: String,
    /// Source location.
    pub span: Span,
}

impl Ident {
    /// Construct an identifier.
    pub fn new(text: &str, span: Span) -> (r: Ident)
        ensures
            r.text@ == text@,
            r.span == span,
    {
        Ident { text: String::from_str(text), span }
    }

    /// Duplicate this identifier.
    pub fn duplicate(&self) -> (r: Ident)
        ensures
            r == *self,
    {
        Ident { text: self.text.clone(), span: self.span }
    }
}

/// A string literal: its decoded value and its location.
#[derive(Debug)]
pub struct LitStr {
    /// The decoded value of the literal.
    pub value: String,
    /// Source location.
    pub span: Span,
}

impl LitStr {
    /// Construct a string literal model.
    pub fn new(value: &str, span: Span) -> (r: LitStr)
        ensures
            r.value@ == value@,
            r.span == span,
    {
        LitStr { value: String::from_str(value), span }
    }

    /// Duplicate this literal.
    pub fn duplicate(&self) -> (r: LitStr)
        ensures
            r == *self,
    {
        LitStr { value: self.value.clone(), span: self.span }
    }
}

/// An integer literal: its base-10 digits without suffix, and its location.
#[derive(Debug)]
pub struct LitInt {
    /// Base-10 digits of the literal.
    pub digits: String,
    /// Source location.
    pub span: Span,
}

impl LitInt {
    /// Construct an integer literal model.
    pub fn new(digits: &str, span: Span) -> (r: LitInt)
        ensures
            r.digits@ == digits@,
            r.span == span,
    {
        LitInt { digits: String::from_str(digits), span }
    }

    /// Duplicate this literal.
    pub fn duplicate(&self) -> (r: LitInt)
        ensures
            r == *self,
    {
        LitInt { digits: self.digits.clone(), span: self.span }
    }
}

/// A Rust path, held as its rendered token text.
#[derive(Debug)]
pub struct Path {
    /// Rendered tokens of the path.
    pub text: String,
    /// Source location.
    pub span: Span,
}

impl Path {
    /// Construct a path model.
    pub fn new(text: &str, span: Span) -> (r: Path)
        ensures
            r.text@ == text@,
            r.span == span,
    {
        Path { text: String::from_str(text), span }
    }

    /// Duplicate this path.
    pub fn duplicate(&self) -> (r: Path)
        ensures
            r == *self,
    {
        Path { text: self.text.clone(), span: self.span }
    }
}

/// A Rust type: its rendered token text and the structure the derive reads.
///
/// `last_segment` is the identifier of the last path segment when the type is
/// a path type. `sole_argument` is the inner type when that last segment has
/// angle-bracketed arguments consisting of exactly one type argument.
#[derive(Debug)]
pub struct Type {
    /// Rendered tokens of the type.
    pub text: String,
    /// Whether the type is a trait object such as `dyn Error`.
    pub trait_object: bool,
    /// Identifier of the last path segment of a path type.
    pub last_segment: Option<String>,
    /// The sole type argument of the last path segment.
    pub sole_argument: Option<Box<Type>>,
    /// Source location.
    pub span: Span,
}

impl Type {
    /// A type that is not a path type, such as a reference or a tuple.
    pub fn opaque(text: &str, span: Span) -> (r: Type)
        ensures
            r.text@ == text@,
            !r.trait_object,
            r.last_segment is None,
            r.sole_argument is None,
            r.span == span,
    {
        Type { text: String::from_str(text), trait_object: false, last_segment: None, sole_argument: None, span }
    }

    /// A trait object type such as `dyn Error + Send`.
    pub fn trait_object(text: &str, span: Span) -> (r: Type)
        ensures
            r.text@ == text@,
            r.trait_object,
            r.last_segment is None,
            r.sole_argument is None,
            r.span == span,
    {
        Type { text: String::from_str(text), trait_object: true, last_segment: None, sole_argument: None, span }
    }

    /// A path type whose last segment is `last` and whose last segment has
    /// `sole_argument` as its only type argument.
    pub fn path(text: &str, last: &str, sole_argument: Option<Type>, span: Span) -> (r: Type)
        ensures
            r.text@ == text@,
            !r.trait_object,
            r.last_segment matches Some(l) && l@ == last@,
            r.sole_argument == (match sole_argument {
                Some(t) => Some(Box::new(t)),
                None => None::<Box<Type>>,
            }),
            r.span == span,
    {
        let sole_argument = match sole_argument {
            Some(t) => Some(Box::new(t)),
            None => None,
        };
        Type {
            text: String::from_str(text),
            trait_object: false,
            last_segment: Some(String::from_str(last)),
            sole_argument,
            span,
        }
    }

    /// Duplicate this type.
    pub fn duplicate(&self) -> (r: Type)
        ensures
            r == *self,
        decreases self,
    {
        let sole_argument = match &self.sole_argument {
            Some(inner) => Some(Box::new((**inner).duplicate())),
            None => None,
        };
        let last_segment = match &self.last_segment {
            Some(l) => Some(l.clone()),
            None => None,
        };
        Type {
            text: self.text.clone(),
            trait_object: self.trait_object,
            last_segment,
            sole_argument,
            span: self.span,
        }
    }
}

/// A diagnostic message attached to a source location.
#[derive(Debug)]
pub struct Diagnostic {
    /// Location the message refers to.
    pub span: Span,
    /// The message text.
    pub message: String,
}

/// Whether `d` is the diagnostic `message` at `span`.
pub open spec fn is_diagnostic(d: (Span, Seq<char>), span: Span, message: Seq<char>) -> bool {
    d == (span, message)
}

impl Diagnostic {
    /// Construct a diagnostic.
    pub fn new(span: Span, message: &str) -> (r: Diagnostic)
        ensures
            r.span == span,
            r.message@ == message@,
    {
        Diagnostic { span, message: String::from_str(message) }
    }

    /// Duplicate this diagnostic.
    pub fn duplicate(&self) -> (r: Diagnostic)
        ensures
            r == *self,
    {
        Diagnostic { span: self.span, message: self.message.clone() }
    }
}

} // verus!

verus! {

/// One or more diagnostics reported together, in the order they were added.
#[derive(Debug)]
pub struct Error {
    /// The diagnostics in report order.
    messages: Vec<Diagnostic>,
}

impl View for Error {
    type V = Seq<(Span, Seq<char>)>;

    /// Each diagnostic as its location and message text.
    closed spec fn view(&self) -> Seq<(Span, Seq<char>)> {
        self.messages@.map_values(|d: Diagnostic| (d.span, d.message@))
    }
}

impl Error {
    /// A single diagnostic.
    pub fn new(span: Span, message: &str) -> (r: Error)
        ensures
            r@.len() == 1,
            is_diagnostic(r@[0], span, message@),
    {
        let mut messages = Vec::new();
        messages.push(Diagnostic::new(span, message));
        let r = Error { messages };
        assert(r@ =~= seq![(span, message@)]);
        r
    }

    /// Append every diagnostic of `other` after those of `self`.
    pub fn combine(&mut self, other: Error)
        ensures
            final(self)@ == old(self)@ + other@,
    {
        let mut other = other;
        let ghost a = self.messages@;
        let ghost b = other.messages@;
        self.messages.append(&mut other.messages);
        assert(self.messages@ =~= a + b);
        assert((a + b).map_values(|d: Diagnostic| (d.span, d.message@)) =~= a.map_values(|d: Diagnostic| (d.span, d.message@)) + b.map_values(|d: Diagnostic| (d.span, d.message@)));
    }

    /// The diagnostics in report order.
    pub fn diagnostics(&self) -> (r: &Vec<Diagnostic>)
        ensures
            r@.map_values(|d: Diagnostic| (d.span, d.message@)) == self@,
    {
        &self.messages
    }
}

} // verus!

verus! {

/// The generic parameters of a type, in the three renderings that an impl
/// block needs, plus the where predicates.
#[derive(Debug)]
pub struct Generics {
    /// Rendered impl generics, such as `< T : Clone >`, or empty.
    pub impl_generics: String,
    /// Rendered type generics, such as `< T >`, or empty.
    pub type_generics: String,
    /// The where clause: `None` when the type has none, else its rendered
    /// predicates in order.
    pub where_clause: Option<Vec<String>>,
}

impl Generics {
    /// Construct a generics model.
    pub fn new(impl_generics: &str, type_generics: &str, where_clause: Option<Vec<String>>) -> (r: Generics)
        ensures
            r.impl_generics@ == impl_generics@,
            r.type_generics@ == type_generics@,
            r.where_clause == where_clause,
    {
        Generics { impl_generics: String::from_str(impl_generics), type_generics: String::from_str(type_generics), where_clause }
    }

    /// The where predicates, none when there is no where clause.
    pub open spec fn predicates(&self) -> Seq<Seq<char>> {
        match self.where_clause {
            Some(p) => p@.map_values(|s: String| s@),
            None => Seq::empty(),
        }
    }

    /// Duplicate these generics.
    pub fn duplicate(&self) -> (r: Generics)
        ensures
            r.impl_generics == self.impl_generics,
            r.type_generics == self.type_generics,
            r.where_clause is Some <==> self.where_clause is Some,
            r.predicates() == self.predicates(),
    {
        let where_clause = match &self.where_clause {
            Some(preds) => {
                let mut out: Vec<String> = Vec::new();
                let mut i: usize = 0;
                while i < preds.len()
                    invariant
                        i <= preds@.len(),
                        out@.len() == i,
                        forall|k: int| 0 <= k < i ==> out@[k] == preds@[k],
                    decreases preds.len() - i,
                {
                    out.push(preds[i].clone());
                    i = i + 1;
                }
                assert(out@ =~= preds@);
                Some(out)
            },
            None => None,
        };
        Generics { impl_generics: self.impl_generics.clone(), type_generics: self.type_generics.clone(), where_clause }
    }

    /// Append one where predicate, creating the where clause when needed.
    pub fn push_predicate(&mut self, predicate: String)
        ensures
            final(self).impl_generics == old(self).impl_generics,
            final(self).type_generics == old(self).type_generics,
            final(self).where_clause is Some,
            final(self).predicates() == old(self).predicates().push(predicate@),
    {
        match &mut self.where_clause {
            Some(preds) => {
                let ghost before = preds@;
                preds.push(predicate);
                assert(preds@.map_values(|s: String| s@) =~= before.map_values(|s: String| s@).push(predicate@));
            },
            None => {
                let mut preds = Vec::new();
                preds.push(predicate);
                self.where_clause = Some(preds);
                assert(self.predicates() =~= Seq::<Seq<char>>::empty().push(predicate@));
            },
        }
    }
}

} // verus!
