//! Parsed `#[error(...)]` syntax that is independent of semantic validation.
//!
//! This module owns the helper-attribute grammar above the Rust token level
//! and the first state transition from raw parameters into coherent display,
//! source, conversion, import and inline policies.

use vstd::prelude::*;

use crate::ast::{is_diagnostic, Error, Ident, LitInt, Path, Span};
use crate::input::diagnostic::Errors;
use crate::input::field::FieldRef;
use crate::input::format::Format;
use crate::text::{text_is, all_digits, chars_of, digits_value, is_all_digits, parse_digits, push_str, string_from_chars};

verus! {

/// The contents of the parentheses after a parameter keyword, as read from
/// the Rust tokens of the attribute.
#[derive(Debug)]
pub enum RawContent {
    /// Exactly one identifier, as in `inline(never)` or `source(inner)`.
    Ident(Ident),
    /// Exactly one integer literal, as in `source(0)`.
    Int(LitInt),
    /// Exactly one identifier that is `_` or a keyword, as in `inline(self)`.
    Reserved(Ident),
    /// Any other Rust path, as in `import(::std)` or `display(crate::render)`.
    Path(Path),
    /// Nothing: the location of the empty parentheses.
    Empty(Span),
    /// Tokens that form none of the above: the location of the first.
    Other(Span),
}

/// The arguments of one `#[error(...)]` attribute, as read from its tokens.
#[derive(Debug)]
pub enum RawParam {
    /// A format string literal followed by its explicit arguments.
    Format(Format),
    /// A parameter keyword, with the contents of the parentheses after it.
    Keyword {
        /// The keyword identifier.
        keyword: Ident,
        /// The parenthesized contents, when parentheses follow the keyword.
        content: Option<RawContent>,
        /// The location of the token right after the keyword (the
        /// parentheses, when they follow), when one follows.
        after: Option<Span>,
        /// The location of the first token after the keyword and its
        /// parentheses, when one follows.
        rest: Option<Span>,
        /// The location of the end of the attribute arguments.
        end: Span,
    },
    /// No tokens at all: the location of the attribute arguments.
    Empty(Span),
    /// Tokens that start neither with a string literal nor an identifier.
    Other(Span),
}

/// One attribute of the derive input.
#[derive(Debug)]
pub struct RawAttribute {
    /// Whether the attribute path is the single identifier `error`.
    pub is_error: bool,
    /// The attribute arguments, or the diagnostic from reading their tokens.
    pub arguments: Result<RawParam, Error>,
}

/// A parsed `#[error(...)]` parameter.
#[derive(Debug)]
pub struct Param {
    /// Source span that introduced the parameter.
    pub span: Span,
    /// Optional identifier that introduced the parameter.
    pub name: Option<Ident>,
    /// Parsed parameter value.
    pub kind: ParamKind,
}

/// The kind of a parsed error parameter.
#[derive(Debug)]
pub enum ParamKind {
    /// Generated method inline behavior.
    Inline(InlinePolicy),
    /// Root path used by generated implementations.
    Import(Import),
    /// A Rust format string and explicit arguments.
    Format(Format),
    /// An explicit source field.
    Source(FieldRef),
    /// Transparent error behavior over one field.
    Transparent(Transparent),
    /// Automatic conversion from the sole field.
    From(Ident),
    /// A custom display formatter path.
    Display(Path),
}

/// The inline policy for generated methods.
#[derive(Clone, Copy, Debug, PartialEq, Eq, Structural)]
pub enum InlinePolicy {
    /// Emit no explicit inline annotation.
    Unspecified,
    /// Emit ordinary `#[inline]`.
    Neutral,
    /// Emit `#[inline(never)]`.
    Never,
    /// Emit `#[inline(always)]`.
    Always,
}

/// The root path used by generated code.
#[derive(Debug)]
pub struct Import(pub Path);

/// The generated root path policy.
#[derive(Debug)]
pub enum ImportRoot {
    /// Generate paths through `::core`.
    Core,
    /// Generate paths through an explicitly selected root.
    Explicit(Path),
}

/// Transparent behavior over a referenced field.
#[derive(Debug)]
pub struct Transparent(pub FieldRef);

/// What a parse failure reports: its location and message.
pub type Failure = (Span, Seq<char>);

impl InlinePolicy {
    /// The policy that the identifier `text` names.
    pub open spec fn spec_parse(text: Seq<char>) -> Option<InlinePolicy> {
        if text == "neutral"@ {
            Some(InlinePolicy::Neutral)
        } else if text == "never"@ {
            Some(InlinePolicy::Never)
        } else if text == "always"@ {
            Some(InlinePolicy::Always)
        } else {
            None
        }
    }

    /// Parse the requested generated-method inline policy.
    pub fn parse(ident: &Ident) -> (r: Result<InlinePolicy, Error>)
        ensures
            match Self::spec_parse(ident.text@) {
                Some(p) => r == Ok::<InlinePolicy, Error>(p),
                None => r matches Err(e) && e@.len() == 1
                    && is_diagnostic(e@[0], ident.span, "expected `neutral`, `never` or `always`"@),
            },
    {
        let neutral = String::from_str("neutral");
        let never = String::from_str("never");
        let always = String::from_str("always");
        if ident.text.eq(&neutral) {
            Ok(InlinePolicy::Neutral)
        } else if ident.text.eq(&never) {
            Ok(InlinePolicy::Never)
        } else if ident.text.eq(&always) {
            Ok(InlinePolicy::Always)
        } else {
            Err(Error::new(ident.span, "expected `neutral`, `never` or `always`"))
        }
    }
}

impl Param {
    /// Construct an unnamed parameter.
    pub fn lone(span: Span, kind: ParamKind) -> (r: Param)
        ensures
            r == (Param { span, name: None, kind }),
    {
        Param { span, name: None, kind }
    }

    /// Construct a named parameter.
    pub fn identified(span: Span, name: Ident, kind: ParamKind) -> (r: Param)
        ensures
            r == (Param { span, name: Some(name), kind }),
    {
        Param { span, name: Some(name), kind }
    }

    /// Return the source span that introduced this parameter.
    pub fn span(&self) -> (r: Span)
        ensures
            r == self.span,
    {
        self.span
    }

    /// Consume the parameter into its optional introducer and parsed value.
    pub fn parts(self) -> (r: (Option<Ident>, ParamKind))
        ensures
            r == (self.name, self.kind),
    {
        (self.name, self.kind)
    }

    /// The field selector that parenthesized content denotes.
    pub open spec fn spec_field_ref(content: RawContent) -> Result<FieldRef, Failure> {
        match content {
            RawContent::Ident(i) => Ok(FieldRef::Named(i)),
            RawContent::Int(literal) => if all_digits(literal.digits@) && digits_value(literal.digits@) <= usize::MAX {
                Ok(FieldRef::Indexed { index: digits_value(literal.digits@) as usize, literal })
            } else {
                Err((literal.span, "expected valid field index"@))
            },
            RawContent::Reserved(i) => Err((i.span, "expected identifier or integer literal"@)),
            RawContent::Path(p) => Err((p.span, "expected identifier or integer literal"@)),
            RawContent::Empty(s) => Err((s, "unexpected end of input, expected identifier or integer literal"@)),
            RawContent::Other(s) => Err((s, "expected identifier or integer literal"@)),
        }
    }

    /// The path that parenthesized content denotes.
    pub open spec fn spec_path(content: RawContent) -> Result<Path, Failure> {
        match content {
            RawContent::Ident(i) => Ok(Path { text: i.text, span: i.span }),
            RawContent::Reserved(i) => if starts_path(i.text@) {
                Ok(Path { text: i.text, span: i.span })
            } else {
                Err((i.span, found_keyword(i.text@)))
            },
            RawContent::Path(p) => Ok(p),
            RawContent::Int(literal) => Err((literal.span, "expected identifier"@)),
            RawContent::Empty(s) => Err((s, "unexpected end of input, expected identifier"@)),
            RawContent::Other(s) => Err((s, "expected identifier"@)),
        }
    }

    /// What one raw parameter parses into.
    pub open spec fn spec_parse(raw: RawParam) -> Result<Param, Failure> {
        match raw {
            RawParam::Format(format) => Ok(Param { span: format.literal.span, name: None, kind: ParamKind::Format(format) }),
            RawParam::Other(s) => Err((s, "expected string literal or identifier"@)),
            RawParam::Empty(s) => Err((s, "unexpected end of input, expected string literal or identifier"@)),
            RawParam::Keyword { keyword, content, after, rest, end } => {
                let span = keyword.span;
                let named = |kind: ParamKind| Param { span, name: Some(keyword), kind };
                let no_parentheses: Failure = match after {
                    Some(a) => (a, "expected parentheses"@),
                    None => (end, "unexpected end of input, expected parentheses"@),
                };
                if keyword.text@ == "inline"@ {
                    match content {
                        None => Self::spec_finish(after, Ok(named(ParamKind::Inline(InlinePolicy::Neutral)))),
                        Some(RawContent::Ident(i)) => match InlinePolicy::spec_parse(i.text@) {
                            Some(p) => Self::spec_finish(rest, Ok(named(ParamKind::Inline(p)))),
                            None => Err((i.span, "expected `neutral`, `never` or `always`"@)),
                        },
                        Some(RawContent::Reserved(i)) => Err((i.span, found_keyword(i.text@))),
                        Some(RawContent::Int(l)) => Err((l.span, "expected identifier"@)),
                        Some(RawContent::Path(p)) => Err((p.span, "expected identifier"@)),
                        Some(RawContent::Empty(s)) => Err((s, "unexpected end of input, expected identifier"@)),
                        Some(RawContent::Other(s)) => Err((s, "expected identifier"@)),
                    }
                } else if keyword.text@ == "import"@ || keyword.text@ == "display"@ {
                    match content {
                        None => Err(no_parentheses),
                        Some(c) => match Self::spec_path(c) {
                            Ok(p) => Self::spec_finish(
                                rest,
                                Ok(named(if keyword.text@ == "import"@ { ParamKind::Import(Import(p)) } else { ParamKind::Display(p) })),
                            ),
                            Err(f) => Err(f),
                        },
                    }
                } else if keyword.text@ == "source"@ || keyword.text@ == "transparent"@ {
                    match content {
                        None => Err(no_parentheses),
                        Some(c) => match Self::spec_field_ref(c) {
                            Ok(f) => Self::spec_finish(
                                rest,
                                Ok(named(if keyword.text@ == "source"@ { ParamKind::Source(f) } else { ParamKind::Transparent(Transparent(f)) })),
                            ),
                            Err(e) => Err(e),
                        },
                    }
                } else if keyword.text@ == "from"@ {
                    Self::spec_finish(after, Ok(named(ParamKind::From(keyword))))
                } else {
                    Err((span, "expected `inline`, `import`, `source`, `transparent`, `from`, or `display`"@))
                }
            },
        }
    }

    /// A parameter read so far, refused when a token is left after it.
    pub open spec fn spec_finish(rest: Option<Span>, read: Result<Param, Failure>) -> Result<Param, Failure> {
        match (read, rest) {
            (Ok(_), Some(s)) => Err((s, "unexpected token"@)),
            _ => read,
        }
    }
}

} // verus!

verus! {

/// What `syn` reports where it expects an identifier and finds the keyword
/// `text`.
pub open spec fn found_keyword(text: Seq<char>) -> Seq<char> {
    "expected identifier, found keyword `"@ + text + "`"@
}

/// Whether the keyword `text` can start a path.
pub open spec fn starts_path(text: Seq<char>) -> bool {
    text == "super"@ || text == "self"@ || text == "Self"@ || text == "crate"@ || text == "try"@
}

/// Whether the keyword `text` can start a path.
fn path_keyword(text: &String) -> (r: bool)
    ensures
        r == starts_path(text@),
{
    text_is(text, "super") || text_is(text, "self") || text_is(text, "Self") || text_is(text, "crate") || text_is(text, "try")
}

/// Report the keyword `i` where an identifier is expected.
fn keyword_failure<T>(i: &Ident) -> (r: Result<T, Error>)
    ensures
        r matches Err(e) && e@.len() == 1 && is_diagnostic(e@[0], i.span, found_keyword(i.text@)),
{
    let mut message: Vec<char> = Vec::new();
    push_str(&mut message, "expected identifier, found keyword `");
    push_str(&mut message, i.text.as_str());
    push_str(&mut message, "`");
    let text = string_from_chars(&message);
    assert(text@ =~= found_keyword(i.text@));
    Err(Error::new(i.span, text.as_str()))
}

/// Report one parse failure.
fn fail<T>(span: Span, message: &str) -> (r: Result<T, Error>)
    ensures
        r matches Err(e) && e@.len() == 1 && is_diagnostic(e@[0], span, message@),
{
    Err(Error::new(span, message))
}

impl Param {
    /// Read parenthesized content as a field selector.
    fn field_ref(content: RawContent) -> (r: Result<FieldRef, Error>)
        ensures
            match Self::spec_field_ref(content) {
                Ok(f) => r == Ok::<FieldRef, Error>(f),
                Err((s, m)) => r matches Err(e) && e@.len() == 1 && is_diagnostic(e@[0], s, m),
            },
    {
        match content {
            RawContent::Ident(i) => Ok(FieldRef::Named(i)),
            RawContent::Int(literal) => {
                let digits = chars_of(literal.digits.as_str());
                if is_all_digits(&digits) {
                    match parse_digits(&digits) {
                        Some(index) => Ok(FieldRef::Indexed { index, literal }),
                        None => fail(literal.span, "expected valid field index"),
                    }
                } else {
                    fail(literal.span, "expected valid field index")
                }
            },
            RawContent::Reserved(i) => fail(i.span, "expected identifier or integer literal"),
            RawContent::Path(p) => fail(p.span, "expected identifier or integer literal"),
            RawContent::Empty(s) => fail(s, "unexpected end of input, expected identifier or integer literal"),
            RawContent::Other(s) => fail(s, "expected identifier or integer literal"),
        }
    }

    /// Read parenthesized content as a path.
    fn path(content: RawContent) -> (r: Result<Path, Error>)
        ensures
            match Self::spec_path(content) {
                Ok(p) => r == Ok::<Path, Error>(p),
                Err((s, m)) => r matches Err(e) && e@.len() == 1 && is_diagnostic(e@[0], s, m),
            },
    {
        match content {
            RawContent::Ident(i) => Ok(Path { text: i.text, span: i.span }),
            RawContent::Reserved(i) => if path_keyword(&i.text) {
                Ok(Path { text: i.text, span: i.span })
            } else {
                keyword_failure(&i)
            },
            RawContent::Path(p) => Ok(p),
            RawContent::Int(literal) => fail(literal.span, "expected identifier"),
            RawContent::Empty(s) => fail(s, "unexpected end of input, expected identifier"),
            RawContent::Other(s) => fail(s, "expected identifier"),
        }
    }

    /// Parse one supported `#[error(...)]` parameter form.
    pub fn parse(raw: RawParam) -> (r: Result<Param, Error>)
        ensures
            match Self::spec_parse(raw) {
                Ok(p) => r == Ok::<Param, Error>(p),
                Err((s, m)) => r matches Err(e) && e@.len() == 1 && is_diagnostic(e@[0], s, m),
            },
    {
        match raw {
            RawParam::Format(format) => {
                let span = format.span();
                Ok(Param::lone(span, ParamKind::Format(format)))
            },
            RawParam::Other(s) => fail(s, "expected string literal or identifier"),
            RawParam::Empty(s) => fail(s, "unexpected end of input, expected string literal or identifier"),
            RawParam::Keyword { keyword, content, after, rest, end } => {
                let span = keyword.span;
                if text_is(&keyword.text, "inline") {
                    match content {
                        None => Self::finish(after, Ok(Param::identified(span, keyword, ParamKind::Inline(InlinePolicy::Neutral)))),
                        Some(RawContent::Ident(i)) => match InlinePolicy::parse(&i) {
                            Ok(p) => Self::finish(rest, Ok(Param::identified(span, keyword, ParamKind::Inline(p)))),
                            Err(e) => Err(e),
                        },
                        Some(RawContent::Reserved(i)) => keyword_failure(&i),
                        Some(RawContent::Int(l)) => fail(l.span, "expected identifier"),
                        Some(RawContent::Path(p)) => fail(p.span, "expected identifier"),
                        Some(RawContent::Empty(s)) => fail(s, "unexpected end of input, expected identifier"),
                        Some(RawContent::Other(s)) => fail(s, "expected identifier"),
                    }
                } else if text_is(&keyword.text, "import") || text_is(&keyword.text, "display") {
                    let import = text_is(&keyword.text, "import");
                    match content {
                        None => Self::no_parentheses(after, end),
                        Some(c) => match Self::path(c) {
                            Ok(p) => {
                                let kind = if import { ParamKind::Import(Import(p)) } else { ParamKind::Display(p) };
                                Self::finish(rest, Ok(Param::identified(span, keyword, kind)))
                            },
                            Err(e) => Err(e),
                        },
                    }
                } else if text_is(&keyword.text, "source") || text_is(&keyword.text, "transparent") {
                    let source = text_is(&keyword.text, "source");
                    match content {
                        None => Self::no_parentheses(after, end),
                        Some(c) => match Self::field_ref(c) {
                            Ok(f) => {
                                let kind = if source { ParamKind::Source(f) } else { ParamKind::Transparent(Transparent(f)) };
                                Self::finish(rest, Ok(Param::identified(span, keyword, kind)))
                            },
                            Err(e) => Err(e),
                        },
                    }
                } else if text_is(&keyword.text, "from") {
                    let from = keyword.duplicate();
                    Self::finish(after, Ok(Param::identified(span, keyword, ParamKind::From(from))))
                } else {
                    fail(span, "expected `inline`, `import`, `source`, `transparent`, `from`, or `display`")
                }
            },
        }
    }

    /// Report parentheses missing after a keyword: at the token in their
    /// place, or at the end of the attribute arguments.
    fn no_parentheses(after: Option<Span>, end: Span) -> (r: Result<Param, Error>)
        ensures
            match after {
                Some(a) => r matches Err(e) && e@.len() == 1 && is_diagnostic(e@[0], a, "expected parentheses"@),
                None => r matches Err(e) && e@.len() == 1 && is_diagnostic(
                    e@[0],
                    end,
                    "unexpected end of input, expected parentheses"@,
                ),
            },
    {
        match after {
            Some(a) => fail(a, "expected parentheses"),
            None => fail(end, "unexpected end of input, expected parentheses"),
        }
    }

    /// A parameter read so far, refused when a token is left after it.
    fn finish(rest: Option<Span>, read: Result<Param, Error>) -> (r: Result<Param, Error>)
        requires
            read is Ok,
        ensures
            match rest {
                Some(s) => r matches Err(e) && e@.len() == 1 && is_diagnostic(e@[0], s, "unexpected token"@),
                None => r == read,
            },
    {
        match rest {
            Some(s) => fail(s, "unexpected token"),
            None => read,
        }
    }
}

} // verus!

verus! {

/// The parameters read from the `#[error(...)]` attributes among `attrs`, in
/// source order; the diagnostics of those that could not be read; and
/// whether any could not be read.
pub open spec fn spec_classify(attrs: Seq<RawAttribute>) -> (Seq<Param>, Seq<Failure>, bool)
    decreases attrs.len(),
{
    if attrs.len() == 0 {
        (Seq::empty(), Seq::empty(), false)
    } else {
        let (params, failures, failed) = spec_classify(attrs.drop_last());
        let attr = attrs.last();
        if !attr.is_error {
            (params, failures, failed)
        } else {
            match attr.arguments {
                Err(e) => (params, failures + e@, true),
                Ok(raw) => match Param::spec_parse(raw) {
                    Ok(p) => (params.push(p), failures, failed),
                    Err(f) => (params, failures.push(f), true),
                },
            }
        }
    }
}

impl Param {
    /// Parse every `#[error(...)]` attribute in source order.
    pub fn classify(attrs: Vec<RawAttribute>) -> (r: Result<Vec<Param>, Error>)
        ensures
            !spec_classify(attrs@).2 ==> (r matches Ok(ps) && ps@ == spec_classify(attrs@).0),
            spec_classify(attrs@).2 ==> (r matches Err(e) && e@ == spec_classify(attrs@).1),
    {
        let mut attrs = attrs;
        let ghost all = attrs@;
        let mut params: Vec<Param> = Vec::new();
        let mut errors = Errors::new();
        let ghost mut i: int = 0;
        while attrs.len() > 0
            invariant
                0 <= i <= all.len(),
                attrs@ == all.skip(i),
                params@ == spec_classify(all.take(i)).0,
                errors@ == spec_classify(all.take(i)).1,
                errors.is_clear() <==> !spec_classify(all.take(i)).2,
            decreases attrs.len(),
        {
            let attr = attrs.remove(0);
            proof {
                assert(i < all.len());
                assert(all.take(i + 1).drop_last() =~= all.take(i));
                assert(all.take(i + 1).last() == all[i]);
                assert(attrs@ =~= all.skip(i + 1));
                i = i + 1;
            }
            if attr.is_error {
                match attr.arguments {
                    Err(e) => errors.push(e),
                    Ok(raw) => match Self::parse(raw) {
                        Ok(p) => params.push(p),
                        Err(e) => {
                            errors.push(e);
                        },
                    },
                }
            }
        }
        assert(all.take(i) =~= all);
        errors.finish(params)
    }
}

/// Parsed container wide generation options.
#[derive(Debug)]
pub struct Config {
    /// Requested generated inline policy.
    pub inline: InlinePolicy,
    /// Requested generated root import.
    pub import: ImportRoot,
}

impl Config {
    /// Construct parsed container options from raw occurrences.
    pub fn new(inline: Option<InlinePolicy>, import: Option<Import>) -> (r: Config)
        ensures
            r.inline == match inline {
                Some(p) => p,
                None => InlinePolicy::Unspecified,
            },
            r.import == match import {
                Some(Import(path)) => ImportRoot::Explicit(path),
                None => ImportRoot::Core,
            },
    {
        let inline = match inline {
            Some(p) => p,
            None => InlinePolicy::Unspecified,
        };
        let import = match import {
            Some(Import(path)) => ImportRoot::Explicit(path),
            None => ImportRoot::Core,
        };
        Config { inline, import }
    }

    /// Consume the options into their semantic components.
    pub fn parts(self) -> (r: (InlinePolicy, ImportRoot))
        ensures
            r == (self.inline, self.import),
    {
        (self.inline, self.import)
    }
}

} // verus!

verus! {

/// Parsed behavior for one syntactically coherent error declaration.
#[derive(Debug)]
pub enum Declaration {
    /// Ordinary display with optional source and conversion behavior.
    Ordinary(Ordinary),
    /// Transparent behavior through one selected field.
    Transparent(FieldRef),
}

/// One ordinary error declaration after syntax classification.
#[derive(Debug)]
pub struct Ordinary {
    /// Selected ordinary display behavior.
    pub display: Display,
    /// Selected ordinary source and conversion behavior.
    pub source: Source,
}

impl Ordinary {
    /// Consume the ordinary declaration into its syntax components.
    pub fn parts(self) -> (r: (Display, Source))
        ensures
            r == (self.display, self.source),
    {
        (self.display, self.source)
    }
}

/// Ordinary display syntax.
#[derive(Debug)]
pub enum Display {
    /// A Rust format string and explicit arguments.
    Format(Format),
    /// A custom formatter function.
    Custom(Path),
}

/// Ordinary source and conversion syntax.
#[derive(Debug)]
pub enum Source {
    /// No source and no automatic conversion.
    Absent,
    /// One explicit ordinary source field.
    Explicit(FieldRef),
    /// Automatic conversion from the sole field.
    From(Ident),
    /// Automatic conversion with an explicit source selector.
    ExplicitFrom {
        /// Explicit source selector.
        field: FieldRef,
        /// Source `from` keyword that requested conversion.
        from: Ident,
    },
}

impl Source {
    /// The source state of a `source` and a `from` occurrence.
    pub open spec fn spec_classify(source: Option<FieldRef>, from: Option<Ident>) -> Source {
        match (source, from) {
            (None, None) => Source::Absent,
            (Some(field), None) => Source::Explicit(field),
            (None, Some(from)) => Source::From(from),
            (Some(field), Some(from)) => Source::ExplicitFrom { field, from },
        }
    }

    /// Classify source and conversion occurrences into one syntax state.
    fn classify(source: Option<FieldRef>, from: Option<Ident>) -> (r: Source)
        ensures
            r == Self::spec_classify(source, from),
    {
        match (source, from) {
            (None, None) => Source::Absent,
            (Some(field), None) => Source::Explicit(field),
            (None, Some(from)) => Source::From(from),
            (Some(field), Some(from)) => Source::ExplicitFrom { field, from },
        }
    }
}

/// The second component of an optional located value.
pub open spec fn value_of<T>(o: Option<(Span, T)>) -> Option<T> {
    match o {
        Some((_, v)) => Some(v),
        None => None,
    }
}

impl Declaration {
    /// The declaration that the occurrences classify into, or the failure.
    ///
    /// `transparent` excludes every other behavior; a format string and
    /// `display(...)` exclude each other; one of the three display forms is
    /// required.
    pub open spec fn spec_classify(
        subject: Ident,
        format: Option<(Span, Format)>,
        display: Option<(Span, Path)>,
        source: Option<(Span, FieldRef)>,
        transparent: Option<(Span, Transparent)>,
        from: Option<(Span, Ident)>,
    ) -> Result<Declaration, Failure> {
        match transparent {
            Some((_, Transparent(field))) => if format is None && display is None && source is None && from is None {
                Ok(Declaration::Transparent(field))
            } else if let Some((span, _)) = format {
                Err((span, "transparent error cannot also declare display formatting"@))
            } else if let Some((span, _)) = display {
                Err((span, "transparent error cannot also declare display formatting"@))
            } else if let Some((span, _)) = source {
                Err((span, "transparent error cannot also declare an ordinary source"@))
            } else {
                Err((from->Some_0.0, "transparent error cannot also derive `From`"@))
            },
            None => match (format, display) {
                (Some(_), Some((span, _))) => Err((span, "error cannot declare both a format string and `display(...)`"@)),
                (None, None) => Err((subject.span, "error requires a format string, `display(...)`, or `transparent(...)`"@)),
                (Some((_, f)), None) => Ok(Declaration::Ordinary(Ordinary {
                    display: Display::Format(f),
                    source: Source::spec_classify(value_of(source), value_of(from)),
                })),
                (None, Some((_, p))) => Ok(Declaration::Ordinary(Ordinary {
                    display: Display::Custom(p),
                    source: Source::spec_classify(value_of(source), value_of(from)),
                })),
            },
        }
    }

    /// Classify raw declaration occurrences into one coherent syntax state.
    pub fn classify(
        subject: &Ident,
        format: Option<(Span, Format)>,
        display: Option<(Span, Path)>,
        source: Option<(Span, FieldRef)>,
        transparent: Option<(Span, Transparent)>,
        from: Option<(Span, Ident)>,
    ) -> (r: Result<Declaration, Error>)
        ensures
            match Self::spec_classify(*subject, format, display, source, transparent, from) {
                Ok(d) => r == Ok::<Declaration, Error>(d),
                Err((s, m)) => r matches Err(e) && e@.len() == 1 && is_diagnostic(e@[0], s, m),
            },
    {
        match transparent {
            Some((_, Transparent(field))) => {
                if format.is_none() && display.is_none() && source.is_none() && from.is_none() {
                    Ok(Declaration::Transparent(field))
                } else if let Some((span, _)) = format {
                    fail(span, "transparent error cannot also declare display formatting")
                } else if let Some((span, _)) = display {
                    fail(span, "transparent error cannot also declare display formatting")
                } else if let Some((span, _)) = source {
                    fail(span, "transparent error cannot also declare an ordinary source")
                } else {
                    match from {
                        Some((span, _)) => fail(span, "transparent error cannot also derive `From`"),
                        None => fail(subject.span, "transparent error cannot also derive `From`"),
                    }
                }
            },
            None => match (format, display) {
                (Some(_), Some((span, _))) => fail(span, "error cannot declare both a format string and `display(...)`"),
                (None, None) => fail(subject.span, "error requires a format string, `display(...)`, or `transparent(...)`"),
                (Some((_, f)), None) => {
                    let source = Source::classify(
                        match source {
                            Some((_, field)) => Some(field),
                            None => None,
                        },
                        match from {
                            Some((_, from)) => Some(from),
                            None => None,
                        },
                    );
                    Ok(Declaration::Ordinary(Ordinary { display: Display::Format(f), source }))
                },
                (None, Some((_, p))) => {
                    let source = Source::classify(
                        match source {
                            Some((_, field)) => Some(field),
                            None => None,
                        },
                        match from {
                            Some((_, from)) => Some(from),
                            None => None,
                        },
                    );
                    Ok(Declaration::Ordinary(Ordinary { display: Display::Custom(p), source }))
                },
            },
        }
    }
}

/// The source field a source state declares, if any.
pub open spec fn declared_source(s: Source) -> Option<FieldRef> {
    match s {
        Source::Explicit(field) => Some(field),
        Source::ExplicitFrom { field, .. } => Some(field),
        _ => None,
    }
}

/// The `from` keyword a source state carries, if any.
pub open spec fn declared_from(s: Source) -> Option<Ident> {
    match s {
        Source::From(from) => Some(from),
        Source::ExplicitFrom { from, .. } => Some(from),
        _ => None,
    }
}

/// The source of an ordinary declaration, if `d` is one.
pub open spec fn ordinary_source(d: Result<Declaration, Failure>) -> Option<Source> {
    match d {
        Ok(Declaration::Ordinary(o)) => Some(o.source),
        _ => None,
    }
}

/// An ordinary declaration keeps exactly the `source(..)` and `from` it
/// declares, whichever display form it uses: with a format string and with
/// `display(..)` alike it is an ordinary declaration whose source state
/// holds the declared source field and the `from` keyword, and the two
/// display forms give the same source state.
pub proof fn law_display_form_keeps_the_source(
    subject: Ident,
    format: (Span, Format),
    display: (Span, Path),
    source: Option<(Span, FieldRef)>,
    from: Option<(Span, Ident)>,
)
    ensures
        ordinary_source(Declaration::spec_classify(subject, Some(format), None, source, None, from)) is Some,
        ordinary_source(Declaration::spec_classify(subject, None, Some(display), source, None, from)) is Some,
        ordinary_source(Declaration::spec_classify(subject, Some(format), None, source, None, from))
            == ordinary_source(Declaration::spec_classify(subject, None, Some(display), source, None, from)),
        declared_source(ordinary_source(Declaration::spec_classify(subject, None, Some(display), source, None, from))->Some_0)
            == value_of(source),
        declared_from(ordinary_source(Declaration::spec_classify(subject, None, Some(display), source, None, from))->Some_0)
            == value_of(from),
{
}

/// The source state of a `source(..)` and a `from` occurrence holds exactly
/// the declared source field and the `from` keyword.
pub proof fn law_source_state_keeps_occurrences(source: Option<FieldRef>, from: Option<Ident>)
    ensures
        declared_source(Source::spec_classify(source, from)) == source,
        declared_from(Source::spec_classify(source, from)) == from,
        (Source::spec_classify(source, from) is Absent) <==> (source is None && from is None),
{
}

/// The display form of an ordinary declaration, if `d` is one.
pub open spec fn ordinary_display(d: Result<Declaration, Failure>) -> Option<Display> {
    match d {
        Ok(Declaration::Ordinary(o)) => Some(o.display),
        _ => None,
    }
}

/// A transparent declaration stands alone: it classifies as transparent over
/// its field exactly when nothing else is declared, and otherwise fails. An
/// ordinary declaration needs exactly one display form: both a format string
/// and `display(..)` fail, and so does neither; the one given is kept.
pub proof fn law_declaration_forms(
    subject: Ident,
    format: Option<(Span, Format)>,
    display: Option<(Span, Path)>,
    source: Option<(Span, FieldRef)>,
    transparent: Option<(Span, Transparent)>,
    from: Option<(Span, Ident)>,
)
    ensures
        transparent is Some ==> (Declaration::spec_classify(subject, format, display, source, transparent, from) is Ok
            <==> (format is None && display is None && source is None && from is None)),
        transparent is Some && format is None && display is None && source is None && from is None
            ==> Declaration::spec_classify(subject, format, display, source, transparent, from) == Ok::<Declaration, Failure>(
            Declaration::Transparent(transparent->Some_0.1.0),
        ),
        transparent is None && format is Some && display is Some ==> Declaration::spec_classify(
            subject,
            format,
            display,
            source,
            transparent,
            from,
        ) is Err,
        transparent is None && format is None && display is None ==> Declaration::spec_classify(
            subject,
            format,
            display,
            source,
            transparent,
            from,
        ) is Err,
        transparent is None && format is Some && display is None ==> ordinary_display(
            Declaration::spec_classify(subject, format, display, source, transparent, from),
        ) == Some(Display::Format(format->Some_0.1)),
        transparent is None && format is None && display is Some ==> ordinary_display(
            Declaration::spec_classify(subject, format, display, source, transparent, from),
        ) == Some(Display::Custom(display->Some_0.1)),
{
}

} // verus!
