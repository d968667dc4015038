//! Code generation engine for the `fack` error derive language.
//!
//! The public API exposes the parse, validate and expansion stages as
//! separate steps, each with its own diagnostics. The derive input
//! is read as plain values (see `ast` and `input::target::DeriveInput`); the
//! generated implementations come back as a `proc_macro2::TokenStream`.

pub mod ast;
pub mod expand;
pub mod indexed;
pub mod input;
pub mod literal;
pub mod semantic;
pub mod text;

use vstd::prelude::*;

use crate::ast::Error;
use crate::expand::{render, target_text};
use crate::input::attribute::Failure;
use crate::input::target::{spec_enumeration, spec_structure, Data, DeriveInput};
use crate::semantic::format::Reading;
use crate::semantic::validate::{sound_readings, target_describes, target_failure};

verus! {

/// The token stream type of `proc_macro2`.
#[verifier::external_type_specification]
#[verifier::external_body]
pub struct ExTokenStream(proc_macro2::TokenStream);

/// The lexing error type of `proc_macro2`.
#[verifier::external_type_specification]
#[verifier::external_body]
pub struct ExLexError(proc_macro2::LexError);

/// Whether the portable lexer of `proc_macro2` accepts `text` as a stream
/// of Rust tokens, with balanced delimiters and well-formed literals: the
/// check that `<proc_macro2::TokenStream as FromStr>::from_str` makes first,
/// whether called directly or through `syn::parse_str`.
pub uninterp spec fn spec_lexes(text: Seq<char>) -> bool;

/// Tokens lexed from Rust source text, together with that text.
pub struct Lexed {
    /// The tokens.
    stream: proc_macro2::TokenStream,
    /// The text the tokens were lexed from.
    text: Ghost<Seq<char>>,
}

impl Lexed {
    /// The source text these tokens were lexed from.
    pub closed spec fn source(&self) -> Seq<char> {
        self.text@
    }

    /// Hand over the tokens.
    pub fn into_stream(self) -> proc_macro2::TokenStream {
        self.stream
    }
}

/// Lex generated Rust source text into tokens.
///
/// Wraps `<proc_macro2::TokenStream as FromStr>::from_str`. Whichever lexer
/// it uses (the compiler's inside a procedural macro, its own portable one
/// elsewhere), it first checks the text with the portable lexer, so success
/// implies that lexer accepts the text (`spec_lexes`); the tokens are those of
/// `text`. Left unsaid: on which texts it succeeds, since the compiler's lexer
/// may reject more; the tokens' spans; and the panics that its documentation
/// reserves for some malformed input.
#[verifier::external_body]
fn lex(text: &str) -> (r: Result<Lexed, proc_macro2::LexError>)
    ensures
        r matches Ok(t) ==> t.source() == text@ && spec_lexes(text@),
{
    match <proc_macro2::TokenStream as std::str::FromStr>::from_str(text) {
        Ok(stream) => Ok(Lexed { stream, text: Ghost(text@) }),
        Err(e) => Err(e),
    }
}

/// The diagnostics of a derive input that does not parse, if it does not.
pub open spec fn parse_failure(input: DeriveInput) -> Option<Seq<Failure>> {
    match input.data {
        Data::Struct(fields) => match spec_structure(input.ident, input.generics, input.attrs@, fields) {
            Ok(_) => None,
            Err(f) => Some(f),
        },
        Data::Enum(variants) => match spec_enumeration(input.attrs@, variants@) {
            Ok(_) => None,
            Err(f) => Some(f),
        },
        Data::Union => Some(seq![(input.ident.span, "unions cannot derive Error"@)]),
    }
}

/// Whether `target` is the parsed form of a derive input that parses.
pub open spec fn parses(input: DeriveInput, target: input::target::Target) -> bool {
    match input.data {
        Data::Struct(fields) => match spec_structure(input.ident, input.generics, input.attrs@, fields) {
            Ok(s) => target == input::target::Target::Struct(s),
            Err(_) => false,
        },
        Data::Enum(variants) => match spec_enumeration(input.attrs@, variants@) {
            Ok((config, parsed)) => target matches input::target::Target::Enum(x) && x.config == config && x.name
                == input.ident && x.generics == input.generics && x.variants@ == parsed,
            Err(_) => false,
        },
        Data::Union => false,
    }
}

/// A syntactically coherent error derive target before semantic validation.
#[derive(Debug)]
pub struct Target(pub input::target::Target);

impl Target {
    /// Parse one derive input into a syntactically coherent target.
    pub fn input(input: DeriveInput) -> (r: Result<Target, Error>)
        ensures
            match parse_failure(input) {
                Some(f) => r matches Err(e) && e@ == f,
                None => r matches Ok(t) && parses(input, t.0),
            },
    {
        match input::target::Target::parse(input) {
            Ok(t) => Ok(Target(t)),
            Err(e) => Err(e),
        }
    }

    /// Validate field dependent semantics for this target.
    ///
    /// Capture heads that are not runs of ASCII word characters are read by
    /// `syn`, whose answer for them is not fixed here: the result is that of
    /// some sound reading of the heads.
    pub fn validate(self) -> (r: Result<ValidatedTarget, Error>)
        ensures
            exists|readings: spec_fn(int) -> Reading|
                sound_readings(readings) && match #[trigger] target_failure(self.0, readings) {
                    Some(f) => r matches Err(e) && e@ == seq![f],
                    None => r matches Ok(v) && target_describes(self.0, v.0, readings),
                },
    {
        match semantic::Target::from_input(self.0) {
            Ok(t) => Ok(ValidatedTarget(t)),
            Err(e) => Err(e),
        }
    }
}

/// The span of a validated target's type identifier.
pub open spec fn name_span(target: semantic::Target) -> crate::ast::Span {
    match target {
        semantic::Target::Struct(s) => s.header.name.span,
        semantic::Target::Enum(e) => e.header.name.span,
    }
}

/// A semantically validated error derive target ready for expansion.
#[derive(Debug)]
pub struct ValidatedTarget(pub semantic::Target);

impl ValidatedTarget {
    /// The Rust source text of the implementations this target generates.
    pub fn source(&self) -> (r: String)
        ensures
            r@ == target_text(self.0),
    {
        render(&self.0)
    }

    /// Expand this validated target into Rust implementation tokens.
    ///
    /// The tokens are those of `target_text`; when that text cannot be
    /// tokenized the failure is reported at the type's identifier.
    pub fn expand(self) -> (r: Result<Lexed, Error>)
        ensures
            r matches Ok(t) ==> t.source() == target_text(self.0) && spec_lexes(target_text(self.0)),
            r matches Err(e) ==> e@ == seq![(name_span(self.0), "generated implementation is not valid Rust tokens"@)],
    {
        let text = render(&self.0);
        let span = match &self.0 {
            semantic::Target::Struct(s) => s.header.name.span,
            semantic::Target::Enum(e) => e.header.name.span,
        };
        match lex(text.as_str()) {
            Ok(tokens) => Ok(tokens),
            Err(_) => {
                let e = Error::new(span, "generated implementation is not valid Rust tokens");
                assert(e@ =~= seq![(span, "generated implementation is not valid Rust tokens"@)]);
                Err(e)
            },
        }
    }
}

/// Parse, validate and expand one derive input, stopping at the first stage
/// that reports diagnostics.
pub fn generate(input: DeriveInput) -> (r: Result<Lexed, Error>)
    ensures
        match parse_failure(input) {
            Some(f) => r matches Err(e) && e@ == f,
            None => exists|t: input::target::Target, readings: spec_fn(int) -> Reading|
                #[trigger] parses(input, t) && sound_readings(readings) && match #[trigger] target_failure(t, readings) {
                    Some(f) => r matches Err(e) && e@ == seq![f],
                    None => exists|v: semantic::Target|
                        #[trigger] target_describes(t, v, readings) && (r matches Ok(l) ==> l.source() == target_text(v))
                            && (r matches Err(e) ==> e@ == seq![(name_span(v), "generated implementation is not valid Rust tokens"@)]),
                },
        },
{
    let target = match Target::input(input) {
        Ok(t) => t,
        Err(e) => return Err(e),
    };
    let ghost parsed = target.0;
    let checked = target.validate();
    let ghost readings = choose|readings: spec_fn(int) -> Reading|
        sound_readings(readings) && match #[trigger] target_failure(parsed, readings) {
            Some(f) => checked matches Err(e) && e@ == seq![f],
            None => checked matches Ok(v) && target_describes(parsed, v.0, readings),
        };
    assert(parses(input, parsed));
    assert(target_failure(parsed, readings) == target_failure(parsed, readings));
    let validated = match checked {
        Ok(v) => v,
        Err(e) => {
            return Err(e);
        },
    };
    let ghost valid = validated.0;
    let r = validated.expand();
    assert(target_describes(parsed, valid, readings));
    r
}

} // verus!
