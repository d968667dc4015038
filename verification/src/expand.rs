//! Expansion of validated semantics into Rust trait implementations.
//!
//! Expansion renders the generated items as Rust source text. Every piece is
//! stated by a spec function over the validated semantics, and generic bounds
//! are collected as where predicates in the order the items need them.

pub mod binding;
pub mod display;
pub mod error;
pub mod conversion;

use vstd::prelude::*;

use crate::ast::{Generics, Ident};
use crate::expand::conversion::{conversion_impl, push_conversion};
use crate::expand::display::{enumeration_display, push_enumeration_display, push_structure_display, structure_display};
use crate::expand::error::{enumeration_error, push_enumeration_error, push_structure_error, structure_error};
use crate::input::attribute::{ImportRoot, InlinePolicy};
use crate::semantic::{Enumeration, Structure, Target, Variant};
use crate::text::{push_chars, push_str, string_from_chars};

verus! {

/// The inline attribute placed on generated methods.
pub open spec fn inline_text(policy: InlinePolicy) -> Seq<char> {
    match policy {
        InlinePolicy::Unspecified => Seq::empty(),
        InlinePolicy::Neutral => "#[inline]"@,
        InlinePolicy::Always => "#[inline(always)]"@,
        InlinePolicy::Never => "#[inline(never)]"@,
    }
}

/// The path root through which generated code names `fmt` and `error`.
pub open spec fn root_text(import: ImportRoot) -> Seq<char> {
    match import {
        ImportRoot::Core => "::core"@,
        ImportRoot::Explicit(path) => path.text@,
    }
}

/// Shared immutable inputs for generated trait implementations.
#[derive(Debug)]
pub struct Context {
    /// Rendered inline attribute for generated methods.
    pub inline: Vec<char>,
    /// Generated path root used by implementations.
    pub root: Vec<char>,
}

impl Context {
    /// Construct generation context from validated global options.
    pub fn new(inline: InlinePolicy, import: &ImportRoot) -> (r: Context)
        ensures
            r.inline@ == inline_text(inline),
            r.root@ == root_text(*import),
    {
        let mut text: Vec<char> = Vec::new();
        match inline {
            InlinePolicy::Unspecified => {},
            InlinePolicy::Neutral => push_str(&mut text, "#[inline]"),
            InlinePolicy::Always => push_str(&mut text, "#[inline(always)]"),
            InlinePolicy::Never => push_str(&mut text, "#[inline(never)]"),
        }
        assert(text@ =~= inline_text(inline));
        let mut root: Vec<char> = Vec::new();
        match import {
            ImportRoot::Core => push_str(&mut root, "::core"),
            ImportRoot::Explicit(path) => push_str(&mut root, path.text.as_str()),
        }
        assert(root@ =~= root_text(*import));
        Context { inline: text, root }
    }
}

/// The predicates separated by commas.
pub open spec fn predicate_list(predicates: Seq<Seq<char>>) -> Seq<char>
    decreases predicates.len(),
{
    if predicates.len() == 0 {
        Seq::empty()
    } else if predicates.len() == 1 {
        predicates[0]
    } else {
        predicate_list(predicates.drop_last()) + ", "@ + predicates.last()
    }
}

/// The where clause: nothing when there is none or it has no predicate, else
/// the keyword and every predicate.
pub open spec fn where_text(present: bool, predicates: Seq<Seq<char>>) -> Seq<char> {
    if present && predicates.len() > 0 {
        " where "@ + predicate_list(predicates)
    } else {
        Seq::empty()
    }
}

/// The opening of a generated impl for the type `name` with generics `g`
/// extended by the where predicates `extra`.
pub open spec fn impl_head(g: Generics, extra: Seq<Seq<char>>, trait_text: Seq<char>, name: Seq<char>) -> Seq<char> {
    "#[automatically_derived] impl "@ + g.impl_generics@ + " "@ + trait_text + " for "@ + name + " "@ + g.type_generics@
        + where_text(g.where_clause is Some || extra.len() > 0, g.predicates() + extra)
}

/// Append the opening of a generated impl. `g` already carries the extra
/// predicates.
pub fn push_impl_head(out: &mut Vec<char>, g: &Generics, trait_text: &Vec<char>, name: &String)
    ensures
        final(out)@ == old(out)@ + "#[automatically_derived] impl "@ + g.impl_generics@ + " "@ + trait_text@ + " for "@
            + name@ + " "@ + g.type_generics@ + where_text(g.where_clause is Some, g.predicates()),
{
    push_str(out, "#[automatically_derived] impl ");
    push_str(out, g.impl_generics.as_str());
    push_str(out, " ");
    push_chars(out, trait_text);
    push_str(out, " for ");
    push_str(out, name.as_str());
    push_str(out, " ");
    push_str(out, g.type_generics.as_str());
    let ghost head = out@;
    match &g.where_clause {
        None => {},
        Some(predicates) => if predicates.len() > 0 {
            push_str(out, " where ");
            let ghost start = out@;
            let mut i: usize = 0;
            while i < predicates.len()
                invariant
                    i <= predicates@.len(),
                    g.where_clause == Some(*predicates),
                    out@ == start + predicate_list(predicates@.take(i as int).map_values(|s: String| s@)),
                decreases predicates.len() - i,
            {
                assert(predicates@.take(i + 1).map_values(|s: String| s@).drop_last() =~= predicates@.take(i as int).map_values(
                    |s: String| s@,
                ));
                if i > 0 {
                    push_str(out, ", ");
                }
                push_str(out, predicates[i].as_str());
                i = i + 1;
                assert(out@ =~= start + predicate_list(predicates@.take(i as int).map_values(|s: String| s@)));
            }
            assert(predicates@.take(predicates@.len() as int) =~= predicates@);
        } else {
            assert(g.predicates().len() == 0);
        },
    }
    assert(out@ =~= old(out)@ + "#[automatically_derived] impl "@ + g.impl_generics@ + " "@ + trait_text@ + " for "@
        + name@ + " "@ + g.type_generics@ + where_text(g.where_clause is Some, g.predicates()));
}

/// Append one where predicate built from `text`.
pub fn add_predicate(g: &mut Generics, text: &Vec<char>)
    ensures
        final(g).impl_generics == old(g).impl_generics,
        final(g).type_generics == old(g).type_generics,
        final(g).where_clause is Some,
        final(g).predicates() == old(g).predicates().push(text@),
{
    g.push_predicate(string_from_chars(text));
}

} // verus!

verus! {

/// The generated items of a structure: its conversion, when requested, then
/// `Display`, then `Error`.
pub open spec fn structure_text(s: Structure) -> Seq<char> {
    let inline = inline_text(s.header.inline);
    let root = root_text(s.header.import);
    let conversion = match s.conversion {
        Some(c) => conversion_impl(s.header.name, s.header.generics, None, c, inline) + " "@,
        None => Seq::empty(),
    };
    conversion + structure_display(s.header.name, s.header.generics, s.fields, s.display, inline, root) + " "@ + structure_error(
        s.header.name,
        s.header.generics,
        s.fields,
        s.source,
        inline,
        root,
    )
}

/// The conversions of every variant that requests one, in order.
pub open spec fn conversions_text(name: Ident, generics: Generics, variants: Seq<Variant>, inline: Seq<char>) -> Seq<char>
    decreases variants.len(),
{
    if variants.len() == 0 {
        Seq::empty()
    } else {
        let v = variants.last();
        let item = match v.conversion {
            Some(c) => conversion_impl(name, generics, Some(v.name), c, inline) + " "@,
            None => Seq::empty(),
        };
        conversions_text(name, generics, variants.drop_last(), inline) + item
    }
}

/// The generated items of an enumeration: the conversions of its variants,
/// then `Display`, then `Error`.
pub open spec fn enumeration_text(e: Enumeration) -> Seq<char> {
    let inline = inline_text(e.header.inline);
    let root = root_text(e.header.import);
    conversions_text(e.header.name, e.header.generics, e.variants@, inline) + enumeration_display(
        e.header.name,
        e.header.generics,
        e.variants@,
        inline,
        root,
    ) + " "@ + enumeration_error(e.header.name, e.header.generics, e.variants@, inline, root)
}

/// The generated items of a validated target.
pub open spec fn target_text(target: Target) -> Seq<char> {
    match target {
        Target::Struct(s) => structure_text(*s),
        Target::Enum(e) => enumeration_text(e),
    }
}

/// Append the generated items of a structure.
fn push_structure(out: &mut Vec<char>, s: &Structure)
    ensures
        final(out)@ == old(out)@ + structure_text(*s),
{
    let context = Context::new(s.header.inline, &s.header.import);
    match &s.conversion {
        Some(c) => {
            push_conversion(out, &s.header.name, &s.header.generics, None, c, &context);
            push_str(out, " ");
        },
        None => {},
    }
    push_structure_display(out, &s.header.name, &s.header.generics, &s.fields, &s.display, &context);
    push_str(out, " ");
    push_structure_error(out, &s.header.name, &s.header.generics, &s.fields, &s.source, &context);
    assert(out@ =~= old(out)@ + structure_text(*s));
}

/// Append the generated items of an enumeration.
fn push_enumeration(out: &mut Vec<char>, e: &Enumeration)
    ensures
        final(out)@ == old(out)@ + enumeration_text(*e),
{
    let context = Context::new(e.header.inline, &e.header.import);
    let variants = &e.variants;
    let ghost start = out@;
    let mut i: usize = 0;
    while i < variants.len()
        invariant
            i <= variants@.len(),
            context.inline@ == inline_text(e.header.inline),
            out@ == start + conversions_text(e.header.name, e.header.generics, variants@.take(i as int), context.inline@),
        decreases variants.len() - i,
    {
        assert(variants@.take(i + 1).drop_last() =~= variants@.take(i as int));
        let variant = &variants[i];
        match &variant.conversion {
            Some(c) => {
                push_conversion(out, &e.header.name, &e.header.generics, Some(&variant.name), c, &context);
                push_str(out, " ");
            },
            None => {},
        }
        i = i + 1;
        assert(out@ =~= start + conversions_text(e.header.name, e.header.generics, variants@.take(i as int), context.inline@));
    }
    assert(variants@.take(variants@.len() as int) =~= variants@);
    push_enumeration_display(out, &e.header.name, &e.header.generics, variants, &context);
    push_str(out, " ");
    push_enumeration_error(out, &e.header.name, &e.header.generics, variants, &context);
    assert(out@ =~= old(out)@ + enumeration_text(*e));
}

/// Render the generated items of one validated target as Rust source text.
pub fn render(target: &Target) -> (r: String)
    ensures
        r@ == target_text(*target),
{
    let mut out: Vec<char> = Vec::new();
    match target {
        Target::Struct(s) => push_structure(&mut out, s),
        Target::Enum(e) => push_enumeration(&mut out, e),
    }
    assert(out@ =~= target_text(*target));
    string_from_chars(&out)
}

} // verus!

verus! {

/// The string literal that the generated `Display` writes for a format is a
/// literal token that denotes the resolved message: `f.write_str` of it for a
/// static message, `write!` with it for a dynamic one.
pub proof fn law_written_literal_denotes_message(
    format: crate::input::format::Format,
    fields: crate::input::field::Fields,
    resolved: crate::semantic::format::Resolved,
    root: Seq<char>,
    reading: crate::semantic::format::Reading,
)
    requires
        crate::semantic::validate::display_describes(fields, crate::input::attribute::Display::Format(format), crate::semantic::Display::Format(resolved), reading),
    ensures
        crate::semantic::format::spec_resolution(format, fields, reading) is Ok,
        match resolved {
            crate::semantic::format::Resolved::Static(l) => {
                &&& crate::literal::string_literal_value(l.token@) == Some(crate::semantic::format::spec_resolution(format, fields, reading)->Ok_0.0)
                &&& crate::expand::display::format_text(resolved, root) == "f.write_str("@ + l.token@ + ")"@
            },
            crate::semantic::format::Resolved::Dynamic(d) => {
                &&& crate::literal::string_literal_value(d.literal.token@) == Some(crate::semantic::format::spec_resolution(format, fields, reading)->Ok_0.0)
                &&& crate::expand::display::format_text(resolved, root) == root + "::write!(f, "@ + d.literal.token@ + ", "@
                    + crate::expand::display::arguments_text(d.arguments@) + ")"@
            },
        },
{
}

/// A message without placeholders or arguments is written with a single
/// `write_str` call of a string literal whose value is the message unchanged,
/// and its display adds no bounds.
pub proof fn law_static_message_is_written_directly(
    format: crate::input::format::Format,
    fields: crate::input::field::Fields,
    resolved: crate::semantic::format::Resolved,
    root: Seq<char>,
    reading: crate::semantic::format::Reading,
)
    requires
        crate::semantic::format::spec_is_static(format),
        crate::semantic::validate::display_describes(fields, crate::input::attribute::Display::Format(format), crate::semantic::Display::Format(resolved), reading),
    ensures
        resolved matches crate::semantic::format::Resolved::Static(l) && l.value@ == format.literal.value@
            && crate::literal::string_literal_value(l.token@) == Some(format.literal.value@)
            && crate::expand::display::display_body(fields, crate::semantic::Display::Format(resolved), root) == "f.write_str("@
            + l.token@ + ")"@,
        crate::expand::display::display_predicates(crate::semantic::Display::Format(resolved), root).len() == 0,
{
    crate::semantic::format::lemma_brace_free_literal_unchanged(format, fields, reading);
}

/// No variant with a source contributes a source bound.
proof fn lemma_sourceless_variants_add_no_bounds(variants: Seq<Variant>, root: Seq<char>)
    requires
        !crate::expand::error::any_source(variants),
    ensures
        crate::expand::error::variants_source_predicates(variants, root) == Seq::<Seq<char>>::empty(),
    decreases variants.len(),
{
    if variants.len() > 0 {
        assert(!(variants[variants.len() - 1].source is Absent) ==> crate::expand::error::any_source(variants));
        assert forall|i: int| 0 <= i < variants.drop_last().len() implies (variants.drop_last()[i].source is Absent) by {
            assert(variants.drop_last()[i] == variants[i]);
        }
        lemma_sourceless_variants_add_no_bounds(variants.drop_last(), root);
    }
}

/// An error without a source gets an `Error` impl with an empty body, so the
/// default `source` (which reports none) applies; its only bound is that
/// `Self` implements `Debug` and `Display`.
pub proof fn law_sourceless_error_keeps_default_source(
    name: Ident,
    generics: Generics,
    fields: crate::input::field::Fields,
    inline: Seq<char>,
    root: Seq<char>,
)
    ensures
        crate::expand::error::structure_error(name, generics, fields, crate::semantic::ErrorSource::Absent, inline, root)
            == impl_head(generics, seq![crate::expand::error::self_predicate(root)], root + "::error::Error"@, name.text@)
            + " { "@ + " }"@,
{
    assert(seq![crate::expand::error::self_predicate(root)] + Seq::<Seq<char>>::empty() =~= seq![
        crate::expand::error::self_predicate(root),
    ]);
    assert(" { "@ + Seq::<char>::empty() + " }"@ =~= " { "@ + " }"@);
}

/// An enumeration none of whose variants has a source gets an `Error` impl
/// with an empty body and only the `Self` bound.
pub proof fn law_sourceless_enumeration_keeps_default_source(
    name: Ident,
    generics: Generics,
    variants: Seq<Variant>,
    inline: Seq<char>,
    root: Seq<char>,
)
    requires
        forall|i: int| 0 <= i < variants.len() ==> (#[trigger] variants[i]).source is Absent,
    ensures
        crate::expand::error::enumeration_error(name, generics, variants, inline, root) == impl_head(
            generics,
            seq![crate::expand::error::self_predicate(root)],
            root + "::error::Error"@,
            name.text@,
        ) + " { "@ + " }"@,
{
    lemma_sourceless_variants_add_no_bounds(variants, root);
    assert(seq![crate::expand::error::self_predicate(root)] + Seq::<Seq<char>>::empty() =~= seq![
        crate::expand::error::self_predicate(root),
    ]);
    assert(" { "@ + Seq::<char>::empty() + " }"@ =~= " { "@ + " }"@);
}

/// Each inline policy named in `inline(..)` puts the attribute of the same
/// name on generated methods: `inline(never)` gives `#[inline(never)]`,
/// `inline(always)` gives `#[inline(always)]`, and `inline(neutral)` (like a
/// bare `inline`) gives `#[inline]`. Without an inline parameter no
/// attribute is written.
pub proof fn law_inline_attribute_names_policy(name: Seq<char>)
    ensures
        InlinePolicy::spec_parse(name) is Some && name != "neutral"@ ==> inline_text(
            InlinePolicy::spec_parse(name)->Some_0,
        ) == "#[inline("@ + name + ")]"@,
        InlinePolicy::spec_parse(name) is Some && name == "neutral"@ ==> inline_text(InlinePolicy::spec_parse(name)->Some_0)
            == "#[inline]"@,
        inline_text(InlinePolicy::Unspecified) == Seq::<char>::empty(),
{
    reveal_strlit("#[inline(");
    reveal_strlit(")]");
    reveal_strlit("never");
    reveal_strlit("always");
    reveal_strlit("neutral");
    reveal_strlit("#[inline(never)]");
    reveal_strlit("#[inline(always)]");
    if name == "never"@ {
        assert("#[inline("@ + name + ")]"@ =~= "#[inline(never)]"@);
    }
    if name == "always"@ {
        assert("#[inline("@ + name + ")]"@ =~= "#[inline(always)]"@);
    }
}

/// Generated paths go through `::core` unless `import(path)` selects another
/// root, which is then used exactly as written.
pub proof fn law_import_root(path: crate::ast::Path)
    ensures
        root_text(ImportRoot::Core) == "::core"@,
        root_text(ImportRoot::Explicit(path)) == path.text@,
{
}

} // verus!
