//! Parsed derive targets and attribute collection.
//!
//! Target parsing gathers helper attributes by location, rejects duplicates,
//! and constructs structure or enum input states only after syntax
//! diagnostics are clear. Field-dependent facts remain unresolved.

use vstd::prelude::*;

use crate::ast::{is_diagnostic, Error, Generics, Ident, Path, Span};
use crate::input::attribute::{
    spec_classify, Config, Declaration, Failure, Import, ImportRoot, InlinePolicy, Param, ParamKind, RawAttribute, Transparent,
};
use crate::input::diagnostic::Errors;
use crate::input::field::{FieldRef, Fields};
use crate::input::format::Format;

verus! {

/// Occurrence state for one syntax parameter.
pub enum Occurrence<T> {
    /// The parameter was not declared.
    Missing,
    /// The parameter was declared exactly once.
    One {
        /// Span of the unique declaration.
        span: Span,
        /// Parsed value of the unique declaration.
        value: T,
    },
    /// The parameter was declared more than once.
    Duplicate {
        /// Span of the first declaration.
        first: Span,
        /// Spans of every later declaration.
        extra: Vec<Span>,
    },
}

/// The diagnostics reported for the declarations at `spans` of one parameter:
/// none for at most one declaration, else one for the first declaration and
/// one for each later declaration.
pub open spec fn duplicate_failures(spans: Seq<Span>) -> Seq<Failure> {
    if spans.len() < 2 {
        Seq::empty()
    } else {
        seq![(spans[0], "parameter declared more than once"@)] + spans.skip(1).map_values(
            |s: Span| (s, "duplicate parameter"@),
        )
    }
}

/// The spans of the declarations `items`.
pub open spec fn spans_of<T>(items: Seq<(Span, T)>) -> Seq<Span> {
    items.map_values(|i: (Span, T)| i.0)
}

/// The unique declaration among `items`, if there is exactly one.
pub open spec fn unique<T>(items: Seq<(Span, T)>) -> Option<(Span, T)> {
    if items.len() == 1 {
        Some(items[0])
    } else {
        None
    }
}

impl<T> Occurrence<T> {
    /// Whether this state records exactly the declarations `items`.
    pub open spec fn records(&self, items: Seq<(Span, T)>) -> bool {
        if items.len() == 0 {
            self is Missing
        } else if items.len() == 1 {
            self matches Occurrence::One { span, value } && span == items[0].0 && value == items[0].1
        } else {
            self matches Occurrence::Duplicate { first, extra } && first == items[0].0
                && extra@ == spans_of(items.skip(1))
        }
    }

    /// Construct an empty occurrence state.
    pub fn new() -> (r: Self)
        ensures
            r.records(Seq::empty()),
    {
        Occurrence::Missing
    }

    /// Record one occurrence and retain only spans after duplication occurs.
    pub fn push(&mut self, item: (Span, T))
        ensures
            forall|items: Seq<(Span, T)>| old(self).records(items) ==> final(self).records(items.push(item)),
    {
        let (span, value) = item;
        let mut current = Occurrence::Missing;
        std::mem::swap(self, &mut current);
        let next = match current {
            Occurrence::Missing => Occurrence::One { span, value },
            Occurrence::One { span: first, .. } => {
                let mut extra = Vec::new();
                extra.push(span);
                Occurrence::Duplicate { first, extra }
            },
            Occurrence::Duplicate { first, mut extra } => {
                extra.push(span);
                Occurrence::Duplicate { first, extra }
            },
        };
        *self = next;
        proof {
            assert forall|items: Seq<(Span, T)>| old(self).records(items) implies self.records(items.push(item)) by {
                let pushed = items.push(item);
                if items.len() == 1 {
                    assert(spans_of(pushed.skip(1)) =~= seq![span]);
                } else if items.len() >= 2 {
                    assert(spans_of(pushed.skip(1)) =~= spans_of(items.skip(1)).push(span));
                }
            }
        }
    }

    /// Resolve the unique value together with its source occurrence span, and
    /// accumulate any duplicate diagnostic.
    pub fn resolve_spanned(self, errors: &mut Errors) -> (r: Option<(Span, T)>)
        ensures
            forall|items: Seq<(Span, T)>| #[trigger] self.records(items) ==> {
                &&& r == unique(items)
                &&& final(errors)@ == old(errors)@ + duplicate_failures(spans_of(items))
                &&& (items.len() >= 2 || !old(errors).is_clear()) <==> !final(errors).is_clear()
            },
    {
        match self {
            Occurrence::Missing => {
                proof {
                    assert forall|items: Seq<(Span, T)>| #[trigger] self.records(items) implies
                        errors@ == old(errors)@ + duplicate_failures(spans_of(items)) by {
                        assert(errors@ =~= old(errors)@ + Seq::<Failure>::empty());
                    }
                }
                None
            },
            Occurrence::One { span, value } => {
                proof {
                    assert forall|items: Seq<(Span, T)>| #[trigger] self.records(items) implies
                        errors@ == old(errors)@ + duplicate_failures(spans_of(items)) by {
                        assert(errors@ =~= old(errors)@ + Seq::<Failure>::empty());
                    }
                }
                Some((span, value))
            },
            Occurrence::Duplicate { first, extra } => {
                let mut error = Error::new(first, "parameter declared more than once");
                let mut i: usize = 0;
                while i < extra.len()
                    invariant
                        i <= extra@.len(),
                        error@ == seq![(first, "parameter declared more than once"@)] + extra@.take(i as int).map_values(
                            |s: Span| (s, "duplicate parameter"@),
                        ),
                    decreases extra.len() - i,
                {
                    error.combine(Error::new(extra[i], "duplicate parameter"));
                    i = i + 1;
                    assert(extra@.take(i as int).map_values(|s: Span| (s, "duplicate parameter"@)) =~= extra@.take(i - 1).map_values(
                        |s: Span| (s, "duplicate parameter"@),
                    ).push((extra@[i - 1], "duplicate parameter"@)));
                }
                assert(extra@.take(extra@.len() as int) =~= extra@);
                let ghost e = error@;
                errors.push(error);
                proof {
                    assert forall|items: Seq<(Span, T)>| #[trigger] self.records(items) implies
                        errors@ == old(errors)@ + duplicate_failures(spans_of(items)) by {
                        let spans = spans_of(items);
                        assert(spans.skip(1) =~= spans_of(items.skip(1)));
                        assert(duplicate_failures(spans) =~= e);
                    }
                }
                None
            },
        }
    }

    /// Resolve the unique value and accumulate any duplicate diagnostic.
    pub fn resolve(self, errors: &mut Errors) -> (r: Option<T>)
        ensures
            forall|items: Seq<(Span, T)>| #[trigger] self.records(items) ==> {
                &&& r == match unique(items) {
                    Some((_, v)) => Some(v),
                    None => None,
                }
                &&& final(errors)@ == old(errors)@ + duplicate_failures(spans_of(items))
                &&& (items.len() >= 2 || !old(errors).is_clear()) <==> !final(errors).is_clear()
            },
    {
        match self.resolve_spanned(errors) {
            Some((_, value)) => Some(value),
            None => None,
        }
    }
}

} // verus!

verus! {

/// The format string declarations among `params`.
pub open spec fn format_items(params: Seq<Param>) -> Seq<(Span, Format)>
    decreases params.len(),
{
    if params.len() == 0 {
        Seq::empty()
    } else {
        let rest = format_items(params.drop_last());
        match params.last().kind {
            ParamKind::Format(v) => rest.push((params.last().span, v)),
            _ => rest,
        }
    }
}

/// The `display(...)` declarations among `params`.
pub open spec fn display_items(params: Seq<Param>) -> Seq<(Span, Path)>
    decreases params.len(),
{
    if params.len() == 0 {
        Seq::empty()
    } else {
        let rest = display_items(params.drop_last());
        match params.last().kind {
            ParamKind::Display(v) => rest.push((params.last().span, v)),
            _ => rest,
        }
    }
}

/// The `source(...)` declarations among `params`.
pub open spec fn source_items(params: Seq<Param>) -> Seq<(Span, FieldRef)>
    decreases params.len(),
{
    if params.len() == 0 {
        Seq::empty()
    } else {
        let rest = source_items(params.drop_last());
        match params.last().kind {
            ParamKind::Source(v) => rest.push((params.last().span, v)),
            _ => rest,
        }
    }
}

/// The `transparent(...)` declarations among `params`.
pub open spec fn transparent_items(params: Seq<Param>) -> Seq<(Span, Transparent)>
    decreases params.len(),
{
    if params.len() == 0 {
        Seq::empty()
    } else {
        let rest = transparent_items(params.drop_last());
        match params.last().kind {
            ParamKind::Transparent(v) => rest.push((params.last().span, v)),
            _ => rest,
        }
    }
}

/// The `from` declarations among `params`.
pub open spec fn from_items(params: Seq<Param>) -> Seq<(Span, Ident)>
    decreases params.len(),
{
    if params.len() == 0 {
        Seq::empty()
    } else {
        let rest = from_items(params.drop_last());
        match params.last().kind {
            ParamKind::From(v) => rest.push((params.last().span, v)),
            _ => rest,
        }
    }
}

/// The `inline` declarations among `params`.
pub open spec fn inline_items(params: Seq<Param>) -> Seq<(Span, InlinePolicy)>
    decreases params.len(),
{
    if params.len() == 0 {
        Seq::empty()
    } else {
        let rest = inline_items(params.drop_last());
        match params.last().kind {
            ParamKind::Inline(v) => rest.push((params.last().span, v)),
            _ => rest,
        }
    }
}

/// The `import(...)` declarations among `params`.
pub open spec fn import_items(params: Seq<Param>) -> Seq<(Span, Import)>
    decreases params.len(),
{
    if params.len() == 0 {
        Seq::empty()
    } else {
        let rest = import_items(params.drop_last());
        match params.last().kind {
            ParamKind::Import(v) => rest.push((params.last().span, v)),
            _ => rest,
        }
    }
}

/// The diagnostics for parameters that are misplaced: on an enum (when
/// `on_enum`) anything but `inline` and `import`; on a variant exactly
/// those two.
pub open spec fn misplaced_failures(params: Seq<Param>, on_enum: bool) -> Seq<Failure>
    decreases params.len(),
{
    if params.len() == 0 {
        Seq::empty()
    } else {
        let rest = misplaced_failures(params.drop_last(), on_enum);
        let p = params.last();
        let container = p.kind is Inline || p.kind is Import;
        if on_enum && !container {
            rest.push((p.span, "only `inline` and `import` are valid on an error enum"@))
        } else if !on_enum && container {
            rest.push((p.span, "this parameter belongs on the enum"@))
        } else {
            rest
        }
    }
}

/// The second component of an optional located value.
pub open spec fn unique_value<T>(items: Seq<(Span, T)>) -> Option<T> {
    match unique(items) {
        Some((_, v)) => Some(v),
        None => None,
    }
}

/// The duplicate diagnostics of the behavior parameters, in the order
/// format, display, source, transparent, from.
pub open spec fn behavior_duplicates(params: Seq<Param>) -> Seq<Failure> {
    duplicate_failures(spans_of(format_items(params)))
        + duplicate_failures(spans_of(display_items(params)))
        + duplicate_failures(spans_of(source_items(params)))
        + duplicate_failures(spans_of(transparent_items(params)))
        + duplicate_failures(spans_of(from_items(params)))
}

/// Whether some behavior parameter is declared more than once.
pub open spec fn behavior_duplicated(params: Seq<Param>) -> bool {
    format_items(params).len() >= 2 || display_items(params).len() >= 2 || source_items(params).len() >= 2
        || transparent_items(params).len() >= 2 || from_items(params).len() >= 2
}

/// The declaration classified from the unique behavior parameters.
pub open spec fn declared(subject: Ident, params: Seq<Param>) -> Result<Declaration, Failure> {
    Declaration::spec_classify(
        subject,
        unique(format_items(params)),
        unique(display_items(params)),
        unique(source_items(params)),
        unique(transparent_items(params)),
        unique(from_items(params)),
    )
}

/// Behavior occurrences of one structure or variant.
struct Behavior {
    /// Format string occurrences.
    format: Occurrence<Format>,
    /// Custom display occurrences.
    display: Occurrence<Path>,
    /// Source occurrences.
    source: Occurrence<FieldRef>,
    /// Transparent occurrences.
    transparent: Occurrence<Transparent>,
    /// Conversion occurrences.
    from: Occurrence<Ident>,
}

impl Behavior {
    /// Whether these occurrences record the behavior parameters of `params`.
    spec fn records(&self, params: Seq<Param>) -> bool {
        &&& self.format.records(format_items(params))
        &&& self.display.records(display_items(params))
        &&& self.source.records(source_items(params))
        &&& self.transparent.records(transparent_items(params))
        &&& self.from.records(from_items(params))
    }

    /// No occurrences yet.
    fn new() -> (r: Behavior)
        ensures
            r.records(Seq::empty()),
    {
        Behavior {
            format: Occurrence::new(),
            display: Occurrence::new(),
            source: Occurrence::new(),
            transparent: Occurrence::new(),
            from: Occurrence::new(),
        }
    }

    /// Resolve every behavior occurrence, in the order format, display,
    /// source, transparent, from.
    fn resolve(self, errors: &mut Errors, Ghost(params): Ghost<Seq<Param>>) -> (r: (
        Option<(Span, Format)>,
        Option<(Span, Path)>,
        Option<(Span, FieldRef)>,
        Option<(Span, Transparent)>,
        Option<(Span, Ident)>,
    ))
        requires
            self.records(params),
        ensures
            r == (
                unique(format_items(params)),
                unique(display_items(params)),
                unique(source_items(params)),
                unique(transparent_items(params)),
                unique(from_items(params)),
            ),
            final(errors)@ == old(errors)@ + behavior_duplicates(params),
            final(errors).is_clear() <==> (old(errors).is_clear() && !behavior_duplicated(params)),
    {
        let Behavior { format, display, source, transparent, from } = self;
        let format = format.resolve_spanned(errors);
        let display = display.resolve_spanned(errors);
        let source = source.resolve_spanned(errors);
        let transparent = transparent.resolve_spanned(errors);
        let from = from.resolve_spanned(errors);
        proof {
            assert(errors@ =~= old(errors)@ + behavior_duplicates(params));
        }
        (format, display, source, transparent, from)
    }
}

} // verus!

verus! {

/// Occurrences of every parameter kind of one attribute list.
struct Gathered {
    /// Behavior occurrences.
    behavior: Behavior,
    /// Inline policy occurrences.
    inline: Occurrence<InlinePolicy>,
    /// Import root occurrences.
    import: Occurrence<Import>,
}

impl Gathered {
    /// Whether these occurrences record every parameter of `params`.
    spec fn records(&self, params: Seq<Param>) -> bool {
        &&& self.behavior.records(params)
        &&& self.inline.records(inline_items(params))
        &&& self.import.records(import_items(params))
    }
}

/// The diagnostics for misplaced parameters at a placement: none on a
/// structure, else those of `misplaced_failures`.
pub open spec fn placement_failures(params: Seq<Param>, placement: Option<bool>) -> Seq<Failure> {
    match placement {
        None => Seq::empty(),
        Some(on_enum) => misplaced_failures(params, on_enum),
    }
}

/// Record every parameter by kind, in source order, and report those that
/// the placement (`None` for a structure, `Some(true)` for an enum,
/// `Some(false)` for a variant) does not accept.
fn gather(params: Vec<Param>, placement: Option<bool>, errors: &mut Errors) -> (r: Gathered)
    ensures
        r.records(params@),
        final(errors)@ == old(errors)@ + placement_failures(params@, placement),
        final(errors).is_clear() <==> (old(errors).is_clear() && placement_failures(params@, placement).len() == 0),
{
    let mut params = params;
    let ghost all = params@;
    let mut gathered = Gathered { behavior: Behavior::new(), inline: Occurrence::new(), import: Occurrence::new() };
    let ghost start = errors@;
    let ghost start_clear = errors.is_clear();
    let ghost mut i: int = 0;
    proof {
        assert(all.take(0) =~= Seq::<Param>::empty());
        assert(errors@ =~= start + placement_failures(all.take(0), placement));
    }
    while params.len() > 0
        invariant
            0 <= i <= all.len(),
            params@ == all.skip(i),
            gathered.records(all.take(i)),
            errors@ == start + placement_failures(all.take(i), placement),
            errors.is_clear() <==> (start_clear && placement_failures(all.take(i), placement).len() == 0),
        decreases params.len(),
    {
        let param = params.remove(0);
        let ghost prefix = all.take(i);
        proof {
            assert(i < all.len());
            assert(all.take(i + 1).drop_last() =~= prefix);
            assert(all.take(i + 1).last() == all[i]);
            assert(param == all[i]);
            assert(params@ =~= all.skip(i + 1));
        }
        let span = param.span();
        let (_name, kind) = param.parts();
        let container = match &kind {
            ParamKind::Inline(_) | ParamKind::Import(_) => true,
            _ => false,
        };
        match placement {
            Some(true) => if !container {
                errors.push(Error::new(span, "only `inline` and `import` are valid on an error enum"));
            },
            Some(false) => if container {
                errors.push(Error::new(span, "this parameter belongs on the enum"));
            },
            None => {},
        }
        match kind {
            ParamKind::Format(value) => gathered.behavior.format.push((span, value)),
            ParamKind::Display(value) => gathered.behavior.display.push((span, value)),
            ParamKind::Source(value) => gathered.behavior.source.push((span, value)),
            ParamKind::Transparent(value) => gathered.behavior.transparent.push((span, value)),
            ParamKind::From(value) => gathered.behavior.from.push((span, value)),
            ParamKind::Inline(value) => gathered.inline.push((span, value)),
            ParamKind::Import(value) => gathered.import.push((span, value)),
        }
        proof {
            i = i + 1;
        }
    }
    proof {
        assert(all.take(i) =~= all);
    }
    gathered
}

/// The inline policy and import root that the parameters select.
pub open spec fn config_of(params: Seq<Param>) -> Config {
    Config {
        inline: match unique_value(inline_items(params)) {
            Some(p) => p,
            None => InlinePolicy::Unspecified,
        },
        import: match unique_value(import_items(params)) {
            Some(Import(path)) => ImportRoot::Explicit(path),
            None => ImportRoot::Core,
        },
    }
}

/// Whether `inline` or `import` is declared more than once.
pub open spec fn container_duplicated(params: Seq<Param>) -> bool {
    inline_items(params).len() >= 2 || import_items(params).len() >= 2
}

/// The duplicate diagnostics of `inline`, then of `import`.
pub open spec fn container_duplicates(params: Seq<Param>) -> Seq<Failure> {
    duplicate_failures(spans_of(inline_items(params))) + duplicate_failures(spans_of(import_items(params)))
}

proof fn lemma_duplicate_failures_empty(spans: Seq<Span>)
    ensures
        duplicate_failures(spans).len() == 0 <==> spans.len() < 2,
{
}

} // verus!

verus! {

/// The data of a derive input.
#[derive(Debug)]
pub enum Data {
    /// A structure with its fields.
    Struct(Fields),
    /// An enumeration with its variants in declaration order.
    Enum(Vec<RawVariant>),
    /// A union.
    Union,
}

/// One enum variant as declared.
#[derive(Debug)]
pub struct RawVariant {
    /// Variant identifier.
    pub ident: Ident,
    /// Variant attributes in source order.
    pub attrs: Vec<RawAttribute>,
    /// Variant fields.
    pub fields: Fields,
}

/// The item that the derive was applied to.
#[derive(Debug)]
pub struct DeriveInput {
    /// Item identifier.
    pub ident: Ident,
    /// Item generics.
    pub generics: Generics,
    /// Item attributes in source order.
    pub attrs: Vec<RawAttribute>,
    /// Item data.
    pub data: Data,
}

/// A parsed error declaration before semantic validation.
#[derive(Debug)]
pub enum Target {
    /// A parsed enumeration declaration.
    Enum(Enumeration),
    /// A parsed structure declaration.
    Struct(Structure),
}

/// A parsed structure error declaration.
#[derive(Debug)]
pub struct Structure {
    /// Parsed container wide generation options.
    pub config: Config,
    /// Source structure identifier.
    pub name: Ident,
    /// Source generic parameters.
    pub generics: Generics,
    /// Parsed structural fields.
    pub fields: Fields,
    /// Parsed error behavior declarations.
    pub declaration: Declaration,
}

impl Structure {
    /// Construct a parsed structure declaration.
    pub fn new(config: Config, name: Ident, generics: Generics, fields: Fields, declaration: Declaration) -> (r: Structure)
        ensures
            r == (Structure { config, name, generics, fields, declaration }),
    {
        Structure { config, name, generics, fields, declaration }
    }

    /// Consume the structure into its parsed components.
    pub fn parts(self) -> (r: (Config, Ident, Generics, Fields, Declaration))
        ensures
            r == (self.config, self.name, self.generics, self.fields, self.declaration),
    {
        (self.config, self.name, self.generics, self.fields, self.declaration)
    }
}

/// A parsed enumeration error declaration.
#[derive(Debug)]
pub struct Enumeration {
    /// Parsed container wide generation options.
    pub config: Config,
    /// Source enumeration identifier.
    pub name: Ident,
    /// Source generic parameters.
    pub generics: Generics,
    /// Parsed error variants.
    pub variants: Vec<Variant>,
}

impl Enumeration {
    /// Consume the enumeration into its parsed components.
    pub fn parts(self) -> (r: (Config, Ident, Generics, Vec<Variant>))
        ensures
            r == (self.config, self.name, self.generics, self.variants),
    {
        (self.config, self.name, self.generics, self.variants)
    }
}

/// A parsed error enumeration variant.
#[derive(Debug)]
pub struct Variant {
    /// Source variant identifier.
    pub name: Ident,
    /// Parsed variant fields.
    pub fields: Fields,
    /// Parsed error behavior declarations.
    pub declaration: Declaration,
}

impl Variant {
    /// Consume the variant into its parsed components.
    pub fn parts(self) -> (r: (Ident, Fields, Declaration))
        ensures
            r == (self.name, self.fields, self.declaration),
    {
        (self.name, self.fields, self.declaration)
    }
}

/// What parsing a structure with these parts gives: the structure, or every
/// diagnostic in report order. Unreadable attributes stop parsing; then
/// duplicates are reported (format, display, source, transparent, from,
/// inline, import); only then are the behaviors classified.
pub open spec fn spec_structure(name: Ident, generics: Generics, attrs: Seq<RawAttribute>, fields: Fields) -> Result<
    Structure,
    Seq<Failure>,
> {
    let (params, failures, failed) = spec_classify(attrs);
    if failed {
        Err(failures)
    } else if behavior_duplicated(params) || container_duplicated(params) {
        Err(behavior_duplicates(params) + container_duplicates(params))
    } else {
        match declared(name, params) {
            Err(f) => Err(seq![f]),
            Ok(declaration) => Ok(Structure { config: config_of(params), name, generics, fields, declaration }),
        }
    }
}

/// What parsing one variant gives: the variant, or every diagnostic in report
/// order. Unreadable attributes stop parsing; then misplaced container
/// parameters and duplicates are reported; only then are the behaviors
/// classified.
pub open spec fn spec_variant(variant: RawVariant) -> Result<Variant, Seq<Failure>> {
    let (params, failures, failed) = spec_classify(variant.attrs@);
    if failed {
        Err(failures)
    } else if misplaced_failures(params, false).len() > 0 || behavior_duplicated(params) {
        Err(misplaced_failures(params, false) + behavior_duplicates(params))
    } else {
        match declared(variant.ident, params) {
            Err(f) => Err(seq![f]),
            Ok(declaration) => Ok(Variant { name: variant.ident, fields: variant.fields, declaration }),
        }
    }
}

/// The variants that parse, the diagnostics of those that do not, and
/// whether any does not.
pub open spec fn spec_variants(variants: Seq<RawVariant>) -> (Seq<Variant>, Seq<Failure>, bool)
    decreases variants.len(),
{
    if variants.len() == 0 {
        (Seq::empty(), Seq::empty(), false)
    } else {
        let (parsed, failures, failed) = spec_variants(variants.drop_last());
        match spec_variant(variants.last()) {
            Ok(v) => (parsed.push(v), failures, failed),
            Err(f) => (parsed, failures + f, true),
        }
    }
}

/// What parsing an enumeration with these parts gives: its configuration and
/// variants, or every diagnostic in report order. Unreadable attributes stop
/// parsing; then come misplaced behavior parameters, each failing variant's
/// diagnostics, and duplicate `inline` and `import`.
pub open spec fn spec_enumeration(attrs: Seq<RawAttribute>, variants: Seq<RawVariant>) -> Result<
    (Config, Seq<Variant>),
    Seq<Failure>,
> {
    let (params, failures, failed) = spec_classify(attrs);
    if failed {
        Err(failures)
    } else {
        let (parsed, variant_failures, variant_failed) = spec_variants(variants);
        if misplaced_failures(params, true).len() > 0 || variant_failed || container_duplicated(params) {
            Err(misplaced_failures(params, true) + variant_failures + container_duplicates(params))
        } else {
            Ok((config_of(params), parsed))
        }
    }
}

} // verus!

verus! {

impl Target {
    /// Parse an error target from a derive input.
    pub fn parse(input: DeriveInput) -> (r: Result<Target, Error>)
        ensures
            match input.data {
                Data::Struct(fields) => match spec_structure(input.ident, input.generics, input.attrs@, fields) {
                    Ok(s) => r matches Ok(Target::Struct(x)) && x == s,
                    Err(f) => r matches Err(e) && e@ == f,
                },
                Data::Enum(variants) => match spec_enumeration(input.attrs@, variants@) {
                    Ok((config, parsed)) => r matches Ok(Target::Enum(x)) && x.config == config && x.name == input.ident
                        && x.generics == input.generics && x.variants@ == parsed,
                    Err(f) => r matches Err(e) && e@ == f,
                },
                Data::Union => r matches Err(e) && e@ == seq![(input.ident.span, "unions cannot derive Error"@)],
            },
    {
        let DeriveInput { ident, generics, attrs, data } = input;
        match data {
            Data::Struct(fields) => Self::structure(ident, generics, attrs, fields),
            Data::Enum(variants) => Self::enumeration(ident, generics, attrs, variants),
            Data::Union => {
                let e = Error::new(ident.span, "unions cannot derive Error");
                assert(e@ =~= seq![(ident.span, "unions cannot derive Error"@)]);
                Err(e)
            },
        }
    }

    /// Parse a structure target and collect each declaration at most once.
    fn structure(name: Ident, generics: Generics, attrs: Vec<RawAttribute>, fields: Fields) -> (r: Result<Target, Error>)
        ensures
            match spec_structure(name, generics, attrs@, fields) {
                Ok(s) => r matches Ok(Target::Struct(x)) && x == s,
                Err(f) => r matches Err(e) && e@ == f,
            },
    {
        let ghost attrs_view = attrs@;
        let params = match Param::classify(attrs) {
            Ok(params) => params,
            Err(e) => return Err(e),
        };
        let ghost ps = params@;
        let mut errors = Errors::new();
        let gathered = gather(params, None, &mut errors);
        let Gathered { behavior, inline, import } = gathered;
        let (format, display, source, transparent, from) = behavior.resolve(&mut errors, Ghost(ps));
        let inline = inline.resolve(&mut errors);
        let import = import.resolve(&mut errors);
        proof {
            lemma_duplicate_failures_empty(spans_of(inline_items(ps)));
            lemma_duplicate_failures_empty(spans_of(import_items(ps)));
            assert(errors@ =~= behavior_duplicates(ps) + container_duplicates(ps));
        }
        match errors.into_error() {
            Some(e) => Err(e),
            None => {
                let config = Config::new(inline, import);
                match Declaration::classify(&name, format, display, source, transparent, from) {
                    Ok(declaration) => Ok(Target::Struct(Structure::new(config, name, generics, fields, declaration))),
                    Err(e) => {
                        assert(e@ =~= seq![e@[0]]);
                        Err(e)
                    },
                }
            },
        }
    }

    /// Parse one enum variant and reject container only parameters.
    fn variant(variant: RawVariant) -> (r: Result<Variant, Error>)
        ensures
            match spec_variant(variant) {
                Ok(v) => r == Ok::<Variant, Error>(v),
                Err(f) => r matches Err(e) && e@ == f,
            },
    {
        let RawVariant { ident, attrs, fields } = variant;
        let params = match Param::classify(attrs) {
            Ok(params) => params,
            Err(e) => return Err(e),
        };
        let ghost ps = params@;
        let mut errors = Errors::new();
        let gathered = gather(params, Some(false), &mut errors);
        let Gathered { behavior, inline, import } = gathered;
        let (format, display, source, transparent, from) = behavior.resolve(&mut errors, Ghost(ps));
        proof {
            assert(errors@ =~= misplaced_failures(ps, false) + behavior_duplicates(ps));
        }
        match errors.into_error() {
            Some(e) => Err(e),
            None => match Declaration::classify(&ident, format, display, source, transparent, from) {
                Ok(declaration) => Ok(Variant { name: ident, fields, declaration }),
                Err(e) => {
                    assert(e@ =~= seq![e@[0]]);
                    Err(e)
                },
            },
        }
    }

    /// Parse enum level options and reject behavior parameters on the enum.
    fn enumeration(name: Ident, generics: Generics, attrs: Vec<RawAttribute>, variants: Vec<RawVariant>) -> (r: Result<
        Target,
        Error,
    >)
        ensures
            match spec_enumeration(attrs@, variants@) {
                Ok((config, parsed)) => r matches Ok(Target::Enum(x)) && x.config == config && x.name == name
                    && x.generics == generics && x.variants@ == parsed,
                Err(f) => r matches Err(e) && e@ == f,
            },
    {
        let params = match Param::classify(attrs) {
            Ok(params) => params,
            Err(e) => return Err(e),
        };
        let ghost ps = params@;
        let mut errors = Errors::new();
        let gathered = gather(params, Some(true), &mut errors);
        let Gathered { behavior, inline, import } = gathered;
        let ghost misplaced = errors@;
        let ghost misplaced_clear = errors.is_clear();
        let mut variants = variants;
        let ghost all = variants@;
        let mut parsed: Vec<Variant> = Vec::new();
        let ghost mut i: int = 0;
        while variants.len() > 0
            invariant
                0 <= i <= all.len(),
                variants@ == all.skip(i),
                parsed@ == spec_variants(all.take(i)).0,
                errors@ == misplaced + spec_variants(all.take(i)).1,
                errors.is_clear() <==> (misplaced_clear && !spec_variants(all.take(i)).2),
            decreases variants.len(),
        {
            let variant = variants.remove(0);
            proof {
                assert(i < all.len());
                assert(all.take(i + 1).drop_last() =~= all.take(i));
                assert(all.take(i + 1).last() == all[i]);
                assert(variants@ =~= all.skip(i + 1));
            }
            let ghost before = errors@;
            match Self::variant(variant) {
                Ok(v) => parsed.push(v),
                Err(e) => {
                    errors.push(e);
                    assert(errors@ =~= before + e@);
                },
            }
            proof {
                i = i + 1;
            }
        }
        proof {
            assert(all.take(i) =~= all);
        }
        let inline = inline.resolve(&mut errors);
        let import = import.resolve(&mut errors);
        proof {
            lemma_duplicate_failures_empty(spans_of(inline_items(ps)));
            lemma_duplicate_failures_empty(spans_of(import_items(ps)));
            assert(errors@ =~= misplaced_failures(ps, true) + spec_variants(all).1 + container_duplicates(ps));
        }
        match errors.into_error() {
            Some(e) => Err(e),
            None => {
                let config = Config::new(inline, import);
                Ok(Target::Enum(Enumeration { config, name, generics, variants: parsed }))
            },
        }
    }
}

} // verus!
