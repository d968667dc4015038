//! Error implementation and source-chain expansion.
//!
//! Error implementations, source methods, source expressions and bound
//! contribution are separate pieces, each stated over the validated source
//! semantics. Validated field proofs are consumed without lookup.

use vstd::prelude::*;

use crate::ast::{Generics, Ident, Type};
use crate::expand::binding::{binding_name, pattern, push_binding, push_pattern};
use crate::expand::display::single_field;
use crate::expand::{add_predicate, impl_head, push_impl_head, Context};
use crate::input::field::{Field, Fields};
use crate::semantic::source::{Source, TransparentSource};
use crate::semantic::{ErrorSource, Variant};
use crate::text::{push_chars, push_str};

verus! {

/// The dynamic error type named through `root`.
pub open spec fn dyn_error(root: Seq<char>) -> Seq<char> {
    "(dyn "@ + root + "::error::Error + 'static)"@
}

/// Append the dynamic error type named through `root`.
fn push_dyn_error(out: &mut Vec<char>, root: &Vec<char>)
    ensures
        final(out)@ == old(out)@ + dyn_error(root@),
{
    push_str(out, "(dyn ");
    push_chars(out, root);
    push_str(out, "::error::Error + 'static)");
    assert(out@ =~= old(out)@ + dyn_error(root@));
}

/// The error type of a source state, when there is a source.
pub open spec fn source_error_type(source: ErrorSource) -> Option<Type> {
    match source {
        ErrorSource::Absent => None,
        ErrorSource::Field(s) => Some(s.spec_inner().error_type),
        ErrorSource::Transparent(t) => Some(t.spec_inner().error_type),
    }
}

/// The bound that one source state requires: its error type implements
/// `Error + 'static`, unless it is a trait object.
pub open spec fn source_predicates(source: ErrorSource, root: Seq<char>) -> Seq<Seq<char>> {
    match source_error_type(source) {
        Some(ty) => if ty.trait_object {
            Seq::empty()
        } else {
            seq![ty.text@ + ": "@ + root + "::error::Error + 'static"@]
        },
        None => Seq::empty(),
    }
}

/// The bound that every generated `Error` impl requires of `Self`.
pub open spec fn self_predicate(root: Seq<char>) -> Seq<char> {
    "Self: "@ + root + "::fmt::Debug + "@ + root + "::fmt::Display"@
}

/// The source bounds of every variant, in order.
pub open spec fn variants_source_predicates(variants: Seq<Variant>, root: Seq<char>) -> Seq<Seq<char>>
    decreases variants.len(),
{
    if variants.len() == 0 {
        Seq::empty()
    } else {
        variants_source_predicates(variants.drop_last(), root) + source_predicates(variants.last().source, root)
    }
}

/// Add the `Self` bound of a generated `Error` impl.
pub(crate) fn add_self_predicate(g: &mut Generics, root: &Vec<char>)
    ensures
        final(g).impl_generics == old(g).impl_generics,
        final(g).type_generics == old(g).type_generics,
        final(g).where_clause is Some,
        final(g).predicates() == old(g).predicates().push(self_predicate(root@)),
{
    let mut text: Vec<char> = Vec::new();
    push_str(&mut text, "Self: ");
    push_chars(&mut text, root);
    push_str(&mut text, "::fmt::Debug + ");
    push_chars(&mut text, root);
    push_str(&mut text, "::fmt::Display");
    assert(text@ =~= self_predicate(root@));
    add_predicate(g, &text);
}

/// Add the source predicate required by one error source state.
fn add_source_predicates(g: &mut Generics, source: &ErrorSource, root: &Vec<char>)
    ensures
        final(g).impl_generics == old(g).impl_generics,
        final(g).type_generics == old(g).type_generics,
        final(g).where_clause is Some <==> (old(g).where_clause is Some || source_predicates(*source, root@).len() > 0),
        final(g).predicates() == old(g).predicates() + source_predicates(*source, root@),
{
    let ty = match source {
        ErrorSource::Absent => None,
        ErrorSource::Field(s) => Some(s.error_type()),
        ErrorSource::Transparent(t) => Some(t.error_type()),
    };
    match ty {
        Some(ty) => if !ty.trait_object {
            let mut text: Vec<char> = Vec::new();
            push_str(&mut text, ty.text.as_str());
            push_str(&mut text, ": ");
            push_chars(&mut text, root);
            push_str(&mut text, "::error::Error + 'static");
            add_predicate(g, &text);
        },
        None => {},
    }
    assert(g.predicates() =~= old(g).predicates() + source_predicates(*source, root@));
}

/// The expression that an ordinary source field bound as `binding` yields.
pub open spec fn ordinary_value(source: Source, binding: Seq<char>, root: Seq<char>) -> Seq<char> {
    match source {
        Source::Direct(_) => "Some("@ + binding + ")"@,
        Source::Boxed(_) => "Some(&**"@ + binding + ")"@,
        Source::Optional(_) => binding + ".as_ref().map(|source| source as &"@ + dyn_error(root) + ")"@,
        Source::OptionalBoxed(_) => binding + ".as_ref().map(|source| &**source as &"@ + dyn_error(root) + ")"@,
    }
}

/// The expression that forwards the source of a transparent field bound as
/// `binding`.
pub open spec fn transparent_value(source: TransparentSource, binding: Seq<char>, root: Seq<char>) -> Seq<char> {
    match source {
        TransparentSource::Direct(_) => root + "::error::Error::source("@ + binding + ")"@,
        TransparentSource::Boxed(_) => root + "::error::Error::source(&**"@ + binding + ")"@,
    }
}

/// The field a source state reads, when there is a source.
pub open spec fn source_field(source: ErrorSource) -> Option<Field> {
    match source {
        ErrorSource::Absent => None,
        ErrorSource::Field(s) => Some(s.spec_inner().field),
        ErrorSource::Transparent(t) => Some(t.spec_inner().field),
    }
}

/// The source expression of a source state that has a source.
pub open spec fn source_value(source: ErrorSource, root: Seq<char>) -> Seq<char> {
    match source {
        ErrorSource::Absent => "None"@,
        ErrorSource::Field(s) => ordinary_value(s, binding_name(s.spec_inner().field), root),
        ErrorSource::Transparent(t) => transparent_value(t, binding_name(t.spec_inner().field), root),
    }
}

/// Append the source expression of a source state.
fn push_source_value(out: &mut Vec<char>, source: &ErrorSource, root: &Vec<char>)
    ensures
        final(out)@ == old(out)@ + source_value(*source, root@),
{
    match source {
        ErrorSource::Absent => push_str(out, "None"),
        ErrorSource::Field(s) => {
            let field = s.field();
            match s {
                Source::Direct(_) => {
                    push_str(out, "Some(");
                    push_binding(out, field);
                    push_str(out, ")");
                },
                Source::Boxed(_) => {
                    push_str(out, "Some(&**");
                    push_binding(out, field);
                    push_str(out, ")");
                },
                Source::Optional(_) => {
                    push_binding(out, field);
                    push_str(out, ".as_ref().map(|source| source as &");
                    push_dyn_error(out, root);
                    push_str(out, ")");
                },
                Source::OptionalBoxed(_) => {
                    push_binding(out, field);
                    push_str(out, ".as_ref().map(|source| &**source as &");
                    push_dyn_error(out, root);
                    push_str(out, ")");
                },
            }
        },
        ErrorSource::Transparent(t) => {
            let field = t.field();
            push_chars(out, root);
            match t {
                TransparentSource::Direct(_) => push_str(out, "::error::Error::source("),
                TransparentSource::Boxed(_) => push_str(out, "::error::Error::source(&**"),
            }
            push_binding(out, field);
            push_str(out, ")");
        },
    }
    assert(out@ =~= old(out)@ + source_value(*source, root@));
}

/// The fields a source state binds: its source field, or none.
pub open spec fn source_binding(source: ErrorSource) -> Seq<Field> {
    match source_field(source) {
        Some(f) => seq![f],
        None => Seq::empty(),
    }
}

/// Append the pattern that binds what a source state reads.
fn push_source_pattern(out: &mut Vec<char>, fields: &Fields, source: &ErrorSource)
    ensures
        final(out)@ == old(out)@ + pattern(*fields, source_binding(*source)),
{
    match source {
        ErrorSource::Absent => {
            let none: &[Field] = &[];
            assert(none@ =~= Seq::<Field>::empty());
            push_pattern(out, fields, none);
        },
        ErrorSource::Field(s) => {
            let one = single_field(s.field());
            push_pattern(out, fields, one.as_slice());
        },
        ErrorSource::Transparent(t) => {
            let one = single_field(t.field());
            push_pattern(out, fields, one.as_slice());
        },
    }
}

/// The signature of the generated `source` method.
pub open spec fn source_signature(inline: Seq<char>, root: Seq<char>) -> Seq<char> {
    inline + " fn source(&self) -> Option<&"@ + dyn_error(root) + "> { "@
}

/// Append the signature of the generated `source` method.
fn push_source_signature(out: &mut Vec<char>, context: &Context)
    ensures
        final(out)@ == old(out)@ + source_signature(context.inline@, context.root@),
{
    push_chars(out, &context.inline);
    push_str(out, " fn source(&self) -> Option<&");
    push_dyn_error(out, &context.root);
    push_str(out, "> { ");
    assert(out@ =~= old(out)@ + source_signature(context.inline@, context.root@));
}

/// The generated `source` method of a structure: none without a source.
pub open spec fn source_method(fields: Fields, source: ErrorSource, inline: Seq<char>, root: Seq<char>) -> Seq<char> {
    match source {
        ErrorSource::Absent => Seq::empty(),
        _ => source_signature(inline, root) + "let &Self "@ + pattern(fields, source_binding(source)) + " = self; "@
            + source_value(source, root) + " }"@,
    }
}

/// Append the generated `source` method of a structure.
fn push_source_method(out: &mut Vec<char>, fields: &Fields, source: &ErrorSource, context: &Context)
    ensures
        final(out)@ == old(out)@ + source_method(*fields, *source, context.inline@, context.root@),
{
    match source {
        ErrorSource::Absent => {
            assert(out@ =~= old(out)@ + source_method(*fields, *source, context.inline@, context.root@));
        },
        _ => {
            push_source_signature(out, context);
            push_str(out, "let &Self ");
            push_source_pattern(out, fields, source);
            push_str(out, " = self; ");
            push_source_value(out, source, &context.root);
            push_str(out, " }");
            assert(out@ =~= old(out)@ + source_method(*fields, *source, context.inline@, context.root@));
        },
    }
}

/// The generated `Error` impl of a structure.
pub open spec fn structure_error(
    name: Ident,
    generics: Generics,
    fields: Fields,
    source: ErrorSource,
    inline: Seq<char>,
    root: Seq<char>,
) -> Seq<char> {
    impl_head(generics, seq![self_predicate(root)] + source_predicates(source, root), root + "::error::Error"@, name.text@)
        + " { "@ + source_method(fields, source, inline, root) + " }"@
}

/// Append the generated `Error` impl of a structure.
pub fn push_structure_error(
    out: &mut Vec<char>,
    name: &Ident,
    generics: &Generics,
    fields: &Fields,
    source: &ErrorSource,
    context: &Context,
)
    ensures
        final(out)@ == old(out)@ + structure_error(*name, *generics, *fields, *source, context.inline@, context.root@),
{
    let root = &context.root;
    let mut g = generics.duplicate();
    add_self_predicate(&mut g, root);
    add_source_predicates(&mut g, source, root);
    assert(g.predicates() =~= generics.predicates() + (seq![self_predicate(root@)] + source_predicates(*source, root@)));
    let mut trait_text: Vec<char> = Vec::new();
    push_chars(&mut trait_text, root);
    push_str(&mut trait_text, "::error::Error");
    push_impl_head(out, &g, &trait_text, &name.text);
    push_str(out, " { ");
    push_source_method(out, fields, source, context);
    push_str(out, " }");
    assert(out@ =~= old(out)@ + structure_error(*name, *generics, *fields, *source, context.inline@, context.root@));
}

/// One enumeration source match arm.
pub open spec fn source_arm(variant: Variant, root: Seq<char>) -> Seq<char> {
    "&Self::"@ + variant.name.text@ + " "@ + pattern(variant.fields, source_binding(variant.source)) + " => "@
        + source_value(variant.source, root)
}

/// The source arms, separated by commas.
pub open spec fn source_arms(variants: Seq<Variant>, root: Seq<char>) -> Seq<char>
    decreases variants.len(),
{
    if variants.len() == 0 {
        Seq::empty()
    } else if variants.len() == 1 {
        source_arm(variants[0], root)
    } else {
        source_arms(variants.drop_last(), root) + ", "@ + source_arm(variants.last(), root)
    }
}

/// Whether some variant has a source.
pub open spec fn any_source(variants: Seq<Variant>) -> bool {
    exists|i: int| 0 <= i < variants.len() && !(variants[i].source is Absent)
}

/// The generated `Error` impl of an enumeration: a `source` method only
/// when some variant has a source.
pub open spec fn enumeration_error(
    name: Ident,
    generics: Generics,
    variants: Seq<Variant>,
    inline: Seq<char>,
    root: Seq<char>,
) -> Seq<char> {
    impl_head(
        generics,
        seq![self_predicate(root)] + variants_source_predicates(variants, root),
        root + "::error::Error"@,
        name.text@,
    ) + " { "@ + if any_source(variants) {
        source_signature(inline, root) + "match self { "@ + source_arms(variants, root) + " } }"@
    } else {
        Seq::empty()
    } + " }"@
}

/// Add the source bound of every variant, in order, and report whether some
/// variant has a source.
fn add_variants_source_predicates(g: &mut Generics, variants: &Vec<Variant>, root: &Vec<char>) -> (r: bool)
    ensures
        r == any_source(variants@),
        final(g).impl_generics == old(g).impl_generics,
        final(g).type_generics == old(g).type_generics,
        old(g).where_clause is Some ==> final(g).where_clause is Some,
        final(g).predicates() == old(g).predicates() + variants_source_predicates(variants@, root@),
{
    let mut i: usize = 0;
    let mut has_source = false;
    assert(variants_source_predicates(variants@.take(0), root@) =~= Seq::<Seq<char>>::empty());
    assert(g.predicates() =~= old(g).predicates() + variants_source_predicates(variants@.take(0), root@));
    while i < variants.len()
        invariant
            i <= variants@.len(),
            g.impl_generics == old(g).impl_generics,
            g.type_generics == old(g).type_generics,
            old(g).where_clause is Some ==> g.where_clause is Some,
            g.predicates() == old(g).predicates() + variants_source_predicates(variants@.take(i as int), root@),
            has_source <==> exists|k: int| 0 <= k < i && !(variants@[k].source is Absent),
        decreases variants.len() - i,
    {
        assert(variants@.take(i + 1).drop_last() =~= variants@.take(i as int));
        add_source_predicates(g, &variants[i].source, root);
        match &variants[i].source {
            ErrorSource::Absent => {},
            _ => {
                has_source = true;
            },
        }
        i = i + 1;
        assert(g.predicates() =~= old(g).predicates() + variants_source_predicates(variants@.take(i as int), root@));
    }
    assert(variants@.take(variants@.len() as int) =~= variants@);
    has_source
}

/// Append one enumeration source match arm.
fn push_source_arm(out: &mut Vec<char>, variant: &Variant, root: &Vec<char>)
    ensures
        final(out)@ == old(out)@ + source_arm(*variant, root@),
{
    push_str(out, "&Self::");
    push_str(out, variant.name.text.as_str());
    push_str(out, " ");
    push_source_pattern(out, &variant.fields, &variant.source);
    push_str(out, " => ");
    push_source_value(out, &variant.source, root);
    assert(out@ =~= old(out)@ + source_arm(*variant, root@));
}

/// Append every source arm, each followed by a comma.
fn push_source_arms(out: &mut Vec<char>, variants: &Vec<Variant>, root: &Vec<char>)
    ensures
        final(out)@ == old(out)@ + source_arms(variants@, root@),
{
    let mut k: usize = 0;
    assert(old(out)@ + source_arms(variants@.take(0), root@) =~= old(out)@);
    while k < variants.len()
        invariant
            k <= variants@.len(),
            out@ == old(out)@ + source_arms(variants@.take(k as int), root@),
        decreases variants.len() - k,
    {
        assert(variants@.take(k + 1).drop_last() =~= variants@.take(k as int));
        if k > 0 {
            push_str(out, ", ");
        }
        push_source_arm(out, &variants[k], root);
        k = k + 1;
        assert(out@ =~= old(out)@ + source_arms(variants@.take(k as int), root@));
    }
    assert(variants@.take(variants@.len() as int) =~= variants@);
}

/// Append the generated `Error` impl of an enumeration.
pub fn push_enumeration_error(out: &mut Vec<char>, name: &Ident, generics: &Generics, variants: &Vec<Variant>, context: &Context)
    ensures
        final(out)@ == old(out)@ + enumeration_error(*name, *generics, variants@, context.inline@, context.root@),
{
    let root = &context.root;
    let mut g = generics.duplicate();
    add_self_predicate(&mut g, root);
    let has_source = add_variants_source_predicates(&mut g, variants, root);
    assert(g.predicates() =~= generics.predicates() + (seq![self_predicate(root@)] + variants_source_predicates(variants@, root@)));
    let mut trait_text: Vec<char> = Vec::new();
    push_chars(&mut trait_text, root);
    push_str(&mut trait_text, "::error::Error");
    push_impl_head(out, &g, &trait_text, &name.text);
    push_str(out, " { ");
    if has_source {
        push_source_signature(out, context);
        push_str(out, "match self { ");
        push_source_arms(out, variants, root);
        push_str(out, " } }");
    }
    push_str(out, " }");
    assert(out@ =~= old(out)@ + enumeration_error(*name, *generics, variants@, context.inline@, context.root@));
}

/// The source expression an ordinary source must have: the field bound by
/// reference, through the box when boxed, as a trait object when optional.
pub open spec fn ordinary_form(s: Source, root: Seq<char>) -> Seq<char> {
    let b = binding_name(s.spec_inner().field);
    let object = "(dyn "@ + root + "::error::Error + 'static)"@;
    match s {
        Source::Direct(_) => "Some("@ + b + ")"@,
        Source::Boxed(_) => "Some(&**"@ + b + ")"@,
        Source::Optional(_) => b + ".as_ref().map(|source| source as &"@ + object + ")"@,
        Source::OptionalBoxed(_) => b + ".as_ref().map(|source| &**source as &"@ + object + ")"@,
    }
}

/// The wrapped error a transparent source forwards to: the bound field,
/// dereferenced through the box when it is boxed.
pub open spec fn forwarded_field(t: TransparentSource) -> Seq<char> {
    let b = binding_name(t.spec_inner().field);
    match t {
        TransparentSource::Direct(_) => b,
        TransparentSource::Boxed(_) => "&**"@ + b,
    }
}

/// The source expression of every source state: a transparent field forwards
/// the source of the wrapped error (`root::error::Error::source` of the
/// field, through the box when it is boxed) and never yields the field
/// itself; an ordinary source yields the field (through the box when boxed,
/// as a trait object when optional); no source yields `None`.
pub proof fn law_source_value_forms(source: ErrorSource, root: Seq<char>)
    ensures
        source is Absent ==> source_value(source, root) == "None"@,
        source is Field ==> source_value(source, root) == ordinary_form(source->Field_0, root),
        source is Transparent ==> source_value(source, root) == root + "::error::Error::source("@ + forwarded_field(
            source->Transparent_0,
        ) + ")"@,
        source is Transparent ==> source_value(source, root) != "Some("@ + forwarded_field(source->Transparent_0) + ")"@,
{
    if let ErrorSource::Field(s) = source {
        let b = binding_name(s.spec_inner().field);
        assert(source_value(source, root) == ordinary_value(s, b, root));
    }
    if let ErrorSource::Transparent(t) = source {
        let field = forwarded_field(t);
        let v = root + "::error::Error::source("@ + field + ")"@;
        let w = "Some("@ + field + ")"@;
        reveal_strlit("::error::Error::source(");
        reveal_strlit("::error::Error::source(&**");
        reveal_strlit("&**");
        reveal_strlit("Some(");
        reveal_strlit(")");
        assert(source_value(source, root) =~= v);
        assert(v.len() == root.len() + 23 + field.len() + 1);
        assert(w.len() == 5 + field.len() + 1);
    }
}
/// The bounds of a generated `Error` impl: `Self` must be `Debug` and
/// `Display` through the root, and a source field's error type (unless it is
/// a trait object) must implement `Error + 'static`; without a source no
/// bound is added for it.
pub proof fn law_error_bounds(source: ErrorSource, root: Seq<char>)
    ensures
        self_predicate(root) == "Self: "@ + root + "::fmt::Debug + "@ + root + "::fmt::Display"@,
        source is Absent ==> source_predicates(source, root) == Seq::<Seq<char>>::empty(),
        source_error_type(source) matches Some(ty) ==> source_predicates(source, root) == (if ty.trait_object {
            Seq::<Seq<char>>::empty()
        } else {
            seq![ty.text@ + ": "@ + root + "::error::Error + 'static"@]
        }),
        source matches ErrorSource::Field(s) ==> source_error_type(source) == Some(s.spec_inner().error_type),
        source matches ErrorSource::Transparent(t) ==> source_error_type(source) == Some(t.spec_inner().error_type),
{
}

/// The generated `source` method binds exactly the source field of `self`
/// and returns the source expression of that field; without a source no
/// method is generated (the trait's default returns `None`).
pub proof fn law_source_method_shape(fields: Fields, source: ErrorSource, inline: Seq<char>, root: Seq<char>)
    ensures
        source is Absent ==> source_method(fields, source, inline, root) == Seq::<char>::empty(),
        !(source is Absent) ==> source_method(fields, source, inline, root) == inline
            + " fn source(&self) -> Option<&(dyn "@ + root + "::error::Error + 'static)> { let &Self "@ + pattern(
            fields,
            seq![source_field(source)->Some_0],
        ) + " = self; "@ + source_value(source, root) + " }"@,
        source matches ErrorSource::Field(s) ==> source_field(source) == Some(s.spec_inner().field),
        source matches ErrorSource::Transparent(t) ==> source_field(source) == Some(t.spec_inner().field),
{
    if !(source is Absent) {
        reveal_strlit(" fn source(&self) -> Option<&");
        reveal_strlit("(dyn ");
        reveal_strlit("::error::Error + 'static)");
        reveal_strlit("> { ");
        reveal_strlit("let &Self ");
        reveal_strlit(" fn source(&self) -> Option<&(dyn ");
        reveal_strlit("::error::Error + 'static)> { let &Self ");
        assert(source_binding(source) == seq![source_field(source)->Some_0]);
        assert(source_method(fields, source, inline, root) =~= inline + " fn source(&self) -> Option<&(dyn "@ + root
            + "::error::Error + 'static)> { let &Self "@ + pattern(fields, seq![source_field(source)->Some_0]) + " = self; "@
            + source_value(source, root) + " }"@);
    }
}

} // verus!
