//! Diagnostic accumulation used by syntax parsing.
//!
//! Parsing can discover independent attribute errors in one source item. This
//! accumulator keeps those diagnostics until a stage boundary decides whether
//! construction may continue.

use vstd::prelude::*;

use crate::ast::{Error, Span};

verus! {

/// Diagnostics accumulated before returning to the caller.
#[derive(Debug)]
pub struct Errors(Option<Error>);

impl View for Errors {
    type V = Seq<(Span, Seq<char>)>;

    /// Every diagnostic accumulated so far, in order.
    closed spec fn view(&self) -> Seq<(Span, Seq<char>)> {
        match self.0 {
            Some(e) => e@,
            None => Seq::empty(),
        }
    }
}

impl Errors {
    /// Whether nothing has been accumulated yet.
    pub closed spec fn is_clear(&self) -> bool {
        self.0 is None
    }

    /// Construct an empty diagnostic list.
    pub fn new() -> (r: Errors)
        ensures
            r.is_clear(),
            r@ == Seq::<(Span, Seq<char>)>::empty(),
    {
        Errors(None)
    }

    /// Append one error.
    pub fn push(&mut self, error: Error)
        ensures
            !final(self).is_clear(),
            final(self)@ == old(self)@ + error@,
    {
        match &mut self.0 {
            Some(existing) => existing.combine(error),
            None => {
                self.0 = Some(error);
                assert(self@ =~= Seq::<(Span, Seq<char>)>::empty() + error@);
            },
        }
    }

    /// Return the value when nothing was accumulated, else every diagnostic.
    pub fn finish<T>(self, value: T) -> (r: Result<T, Error>)
        ensures
            self.is_clear() ==> r == Ok::<T, Error>(value),
            !self.is_clear() ==> (r matches Err(e) && e@ == self@),
    {
        match self.0 {
            Some(error) => Err(error),
            None => Ok(value),
        }
    }

    /// Run the next stage when nothing was accumulated, else return every
    /// diagnostic without running it.
    pub fn and_then<T, F: FnOnce() -> Result<T, Error>>(self, next: F) -> (r: Result<T, Error>)
        requires
            self.is_clear() ==> next.requires(()),
        ensures
            self.is_clear() ==> next.ensures((), r),
            !self.is_clear() ==> (r matches Err(e) && e@ == self@),
    {
        match self.0 {
            Some(error) => Err(error),
            None => next(),
        }
    }

    /// Return every accumulated diagnostic, or `None` when nothing was
    /// accumulated. The next stage runs only on `None`.
    pub fn into_error(self) -> (r: Option<Error>)
        ensures
            self.is_clear() <==> r is None,
            r matches Some(e) ==> e@ == self@,
    {
        self.0
    }
}

} // verus!
