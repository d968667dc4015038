//! Display implementation expansion.
//!
//! Structure bodies, enum arms, format rendering and bound contribution are
//! separate pieces, each stated over the validated display semantics.

use vstd::prelude::*;

use crate::ast::{Generics, Ident};
use crate::expand::binding::{all_fields, binding_name, pattern, push_binding, push_pattern, push_pattern_all};
use crate::expand::{add_predicate, impl_head, push_impl_head, Context};
use crate::input::field::{Field, Fields};
use crate::input::format::Argument;
use crate::semantic::format::{spec_format_trait, BindingRequirement, FormatTrait, FormatUse, Resolved};
use crate::semantic::{Display, Variant};
use crate::text::{push_chars, push_str};

verus! {

/// The formatting trait that a capture mode requires, none for pointers.
pub open spec fn trait_name(format_trait: FormatTrait) -> Option<Seq<char>> {
    match format_trait {
        FormatTrait::Display => Some("Display"@),
        FormatTrait::Debug => Some("Debug"@),
        FormatTrait::LowerHex => Some("LowerHex"@),
        FormatTrait::UpperHex => Some("UpperHex"@),
        FormatTrait::Octal => Some("Octal"@),
        FormatTrait::Binary => Some("Binary"@),
        FormatTrait::LowerExp => Some("LowerExp"@),
        FormatTrait::UpperExp => Some("UpperExp"@),
        FormatTrait::Pointer => None,
    }
}

/// Map a validated format mode to the corresponding formatting trait.
fn push_trait_name(out: &mut Vec<char>, format_trait: FormatTrait) -> (r: bool)
    ensures
        r == trait_name(format_trait) is Some,
        r ==> final(out)@ == old(out)@ + trait_name(format_trait)->Some_0,
        !r ==> final(out)@ == old(out)@,
{
    match format_trait {
        FormatTrait::Display => push_str(out, "Display"),
        FormatTrait::Debug => push_str(out, "Debug"),
        FormatTrait::LowerHex => push_str(out, "LowerHex"),
        FormatTrait::UpperHex => push_str(out, "UpperHex"),
        FormatTrait::Octal => push_str(out, "Octal"),
        FormatTrait::Binary => push_str(out, "Binary"),
        FormatTrait::LowerExp => push_str(out, "LowerExp"),
        FormatTrait::UpperExp => push_str(out, "UpperExp"),
        FormatTrait::Pointer => {
            return false;
        },
    }
    true
}

/// The bounds that the captures `uses` require, one per use in order.
pub open spec fn use_predicates(uses: Seq<FormatUse>, root: Seq<char>) -> Seq<Seq<char>>
    decreases uses.len(),
{
    if uses.len() == 0 {
        Seq::empty()
    } else {
        let rest = use_predicates(uses.drop_last(), root);
        match trait_name(uses.last().format_trait) {
            Some(t) => rest.push(uses.last().field.ty.text@ + ": "@ + root + "::fmt::"@ + t),
            None => rest,
        }
    }
}

/// The bounds that one display state requires.
pub open spec fn display_predicates(display: Display, root: Seq<char>) -> Seq<Seq<char>> {
    match display {
        Display::Format(format) => use_predicates(format.spec_uses(), root),
        Display::Transparent(field) => seq![field.ty.text@ + ": "@ + root + "::fmt::Display"@],
        Display::Custom(_) => Seq::empty(),
    }
}

/// The display bounds of every variant, in order.
pub open spec fn variants_display_predicates(variants: Seq<Variant>, root: Seq<char>) -> Seq<Seq<char>>
    decreases variants.len(),
{
    if variants.len() == 0 {
        Seq::empty()
    } else {
        variants_display_predicates(variants.drop_last(), root) + display_predicates(variants.last().display, root)
    }
}

/// Add the predicates required by one display state.
fn add_display_predicates(g: &mut Generics, display: &Display, root: &Vec<char>)
    ensures
        final(g).impl_generics == old(g).impl_generics,
        final(g).type_generics == old(g).type_generics,
        final(g).where_clause is Some <==> (old(g).where_clause is Some || display_predicates(*display, root@).len() > 0),
        final(g).predicates() == old(g).predicates() + display_predicates(*display, root@),
{
    match display {
        Display::Format(format) => {
            let uses = format.uses();
            let mut i: usize = 0;
            while i < uses.len()
                invariant
                    i <= uses@.len(),
                    uses@ == format.spec_uses(),
                    g.impl_generics == old(g).impl_generics,
                    g.type_generics == old(g).type_generics,
                    g.where_clause is Some <==> (old(g).where_clause is Some || use_predicates(uses@.take(i as int), root@).len() > 0),
                    g.predicates() == old(g).predicates() + use_predicates(uses@.take(i as int), root@),
                decreases uses.len() - i,
            {
                assert(uses@.take(i + 1).drop_last() =~= uses@.take(i as int));
                let mut text: Vec<char> = Vec::new();
                push_str(&mut text, uses[i].field.ty.text.as_str());
                push_str(&mut text, ": ");
                push_chars(&mut text, root);
                push_str(&mut text, "::fmt::");
                if push_trait_name(&mut text, uses[i].format_trait) {
                    add_predicate(g, &text);
                }
                i = i + 1;
                assert(g.predicates() =~= old(g).predicates() + use_predicates(uses@.take(i as int), root@));
            }
            assert(uses@.take(uses@.len() as int) =~= uses@);
        },
        Display::Transparent(field) => {
            let mut text: Vec<char> = Vec::new();
            push_str(&mut text, field.ty.text.as_str());
            push_str(&mut text, ": ");
            push_chars(&mut text, root);
            push_str(&mut text, "::fmt::Display");
            add_predicate(g, &text);
            assert(g.predicates() =~= old(g).predicates() + display_predicates(*display, root@));
        },
        Display::Custom(_) => {
            assert(g.predicates() =~= old(g).predicates() + display_predicates(*display, root@));
        },
    }
}

/// One explicit format argument as written.
pub open spec fn argument_text(a: Argument) -> Seq<char> {
    match a.name {
        Some(name) => name.text@ + " = "@ + a.expression@,
        None => a.expression@,
    }
}

/// The explicit format arguments as written, separated by commas.
pub open spec fn arguments_text(arguments: Seq<Argument>) -> Seq<char>
    decreases arguments.len(),
{
    if arguments.len() == 0 {
        Seq::empty()
    } else if arguments.len() == 1 {
        argument_text(arguments[0])
    } else {
        arguments_text(arguments.drop_last()) + ", "@ + argument_text(arguments.last())
    }
}

/// The statement that writes a resolved format to the formatter `f`.
pub open spec fn format_text(format: Resolved, root: Seq<char>) -> Seq<char> {
    match format {
        Resolved::Static(literal) => "f.write_str("@ + literal.token@ + ")"@,
        Resolved::Dynamic(d) => root + "::write!(f, "@ + d.literal.token@ + ", "@ + arguments_text(
            d.arguments@,
        ) + ")"@,
    }
}

/// Append the statement that writes a resolved format.
fn push_format(out: &mut Vec<char>, format: &Resolved, root: &Vec<char>)
    ensures
        final(out)@ == old(out)@ + format_text(*format, root@),
{
    match format {
        Resolved::Static(literal) => {
            push_str(out, "f.write_str(");
            push_str(out, literal.token.as_str());
            push_str(out, ")");
        },
        Resolved::Dynamic(d) => {
            push_chars(out, root);
            push_str(out, "::write!(f, ");
            push_str(out, d.literal.token.as_str());
            push_str(out, ", ");
            let ghost start = out@;
            let mut i: usize = 0;
            while i < d.arguments.len()
                invariant
                    i <= d.arguments@.len(),
                    out@ == start + arguments_text(d.arguments@.take(i as int)),
                decreases d.arguments.len() - i,
            {
                assert(d.arguments@.take(i + 1).drop_last() =~= d.arguments@.take(i as int));
                let argument = &d.arguments[i];
                if i > 0 {
                    push_str(out, ", ");
                }
                match &argument.name {
                    Some(name) => {
                        push_str(out, name.text.as_str());
                        push_str(out, " = ");
                        push_str(out, argument.expression.as_str());
                    },
                    None => push_str(out, argument.expression.as_str()),
                }
                i = i + 1;
                assert(out@ =~= start + arguments_text(d.arguments@.take(i as int)));
            }
            assert(d.arguments@.take(d.arguments@.len() as int) =~= d.arguments@);
            push_str(out, ")");
        },
    }
    assert(out@ =~= old(out)@ + format_text(*format, root@));
}

/// The fields a dynamic format binds: the selected ones, or all of them.
pub open spec fn format_binding(fields: Fields, format: Resolved) -> Seq<Field> {
    match format {
        Resolved::Static(_) => Seq::empty(),
        Resolved::Dynamic(d) => match d.bindings {
            BindingRequirement::Selected(s) => s.0@,
            BindingRequirement::All => all_fields(fields),
        },
    }
}

/// Append the pattern that binds what a resolved format reads.
fn push_format_pattern(out: &mut Vec<char>, fields: &Fields, format: &Resolved)
    ensures
        final(out)@ == old(out)@ + pattern(*fields, format_binding(*fields, *format)),
{
    match format {
        Resolved::Static(_) => {
            let none: &[Field] = &[];
            assert(none@ =~= Seq::<Field>::empty());
            push_pattern(out, fields, none);
        },
        Resolved::Dynamic(d) => match &d.bindings {
            BindingRequirement::Selected(selected) => push_pattern(out, fields, selected.0.as_slice()),
            BindingRequirement::All => push_pattern_all(out, fields),
        },
    }
}

/// A list holding a copy of `field` alone.
pub fn single_field(field: &Field) -> (r: Vec<Field>)
    ensures
        r@ == seq![*field],
{
    let mut one: Vec<Field> = Vec::new();
    one.push(field.duplicate());
    assert(one@ =~= seq![*field]);
    one
}

/// One structure display method body.
pub open spec fn display_body(fields: Fields, display: Display, root: Seq<char>) -> Seq<char> {
    match display {
        Display::Format(format) => match format {
            Resolved::Static(_) => format_text(format, root),
            Resolved::Dynamic(_) => "let &Self "@ + pattern(fields, format_binding(fields, format)) + " = self; "@
                + format_text(format, root),
        },
        Display::Transparent(field) => "let &Self "@ + pattern(fields, seq![field]) + " = self; "@ + root
            + "::fmt::Display::fmt("@ + binding_name(field) + ", f)"@,
        Display::Custom(path) => path.text@ + "(self, f)"@,
    }
}

/// Append one structure display method body.
fn push_display_body(out: &mut Vec<char>, fields: &Fields, display: &Display, root: &Vec<char>)
    ensures
        final(out)@ == old(out)@ + display_body(*fields, *display, root@),
{
    match display {
        Display::Format(format) => match format {
            Resolved::Static(_) => push_format(out, format, root),
            Resolved::Dynamic(_) => {
                push_str(out, "let &Self ");
                push_format_pattern(out, fields, format);
                push_str(out, " = self; ");
                push_format(out, format, root);
            },
        },
        Display::Transparent(field) => {
            push_str(out, "let &Self ");
            let one = single_field(field);
            push_pattern(out, fields, one.as_slice());
            push_str(out, " = self; ");
            push_chars(out, root);
            push_str(out, "::fmt::Display::fmt(");
            push_binding(out, field);
            push_str(out, ", f)");
        },
        Display::Custom(path) => {
            push_str(out, path.text.as_str());
            push_str(out, "(self, f)");
        },
    }
    assert(out@ =~= old(out)@ + display_body(*fields, *display, root@));
}

} // verus!

verus! {

/// The signature of the generated `fmt` method.
pub open spec fn fmt_signature(root: Seq<char>) -> Seq<char> {
    "fn fmt(&self, f: &mut "@ + root + "::fmt::Formatter<'_>) -> "@ + root + "::fmt::Result"@
}

/// Append the signature of the generated `fmt` method.
fn push_fmt_signature(out: &mut Vec<char>, root: &Vec<char>)
    ensures
        final(out)@ == old(out)@ + fmt_signature(root@),
{
    push_str(out, "fn fmt(&self, f: &mut ");
    push_chars(out, root);
    push_str(out, "::fmt::Formatter<'_>) -> ");
    push_chars(out, root);
    push_str(out, "::fmt::Result");
    assert(out@ =~= old(out)@ + fmt_signature(root@));
}

/// The generated `Display` impl of a structure.
pub open spec fn structure_display(
    name: Ident,
    generics: Generics,
    fields: Fields,
    display: Display,
    inline: Seq<char>,
    root: Seq<char>,
) -> Seq<char> {
    impl_head(generics, display_predicates(display, root), root + "::fmt::Display"@, name.text@) + " { "@ + inline
        + " "@ + fmt_signature(root) + " { "@ + display_body(fields, display, root) + " } }"@
}

/// Append the generated `Display` impl of a structure.
pub fn push_structure_display(
    out: &mut Vec<char>,
    name: &Ident,
    generics: &Generics,
    fields: &Fields,
    display: &Display,
    context: &Context,
)
    ensures
        final(out)@ == old(out)@ + structure_display(*name, *generics, *fields, *display, context.inline@, context.root@),
{
    let mut g = generics.duplicate();
    add_display_predicates(&mut g, display, &context.root);
    let mut trait_text: Vec<char> = Vec::new();
    push_chars(&mut trait_text, &context.root);
    push_str(&mut trait_text, "::fmt::Display");
    push_impl_head(out, &g, &trait_text, &name.text);
    push_str(out, " { ");
    push_chars(out, &context.inline);
    push_str(out, " ");
    push_fmt_signature(out, &context.root);
    push_str(out, " { ");
    push_display_body(out, fields, display, &context.root);
    push_str(out, " } }");
    assert(out@ =~= old(out)@ + structure_display(*name, *generics, *fields, *display, context.inline@, context.root@));
}

/// One enumeration display match arm.
pub open spec fn display_arm(variant: Variant, root: Seq<char>) -> Seq<char> {
    "&Self::"@ + variant.name.text@ + " "@ + match variant.display {
        Display::Format(format) => pattern(variant.fields, format_binding(variant.fields, format)) + " => { "@
            + format_text(format, root) + " }"@,
        Display::Transparent(field) => pattern(variant.fields, seq![field]) + " => "@ + root
            + "::fmt::Display::fmt("@ + binding_name(field) + ", f)"@,
        Display::Custom(path) => pattern(variant.fields, Seq::empty()) + " => "@ + path.text@ + "(self, f)"@,
    }
}

/// Append one enumeration display match arm.
fn push_display_arm(out: &mut Vec<char>, variant: &Variant, root: &Vec<char>)
    ensures
        final(out)@ == old(out)@ + display_arm(*variant, root@),
{
    push_str(out, "&Self::");
    push_str(out, variant.name.text.as_str());
    push_str(out, " ");
    match &variant.display {
        Display::Format(format) => {
            push_format_pattern(out, &variant.fields, format);
            push_str(out, " => { ");
            push_format(out, format, root);
            push_str(out, " }");
        },
        Display::Transparent(field) => {
            let one = single_field(field);
            push_pattern(out, &variant.fields, one.as_slice());
            push_str(out, " => ");
            push_chars(out, root);
            push_str(out, "::fmt::Display::fmt(");
            push_binding(out, field);
            push_str(out, ", f)");
        },
        Display::Custom(path) => {
            let none: &[Field] = &[];
            assert(none@ =~= Seq::<Field>::empty());
            push_pattern(out, &variant.fields, none);
            push_str(out, " => ");
            push_str(out, path.text.as_str());
            push_str(out, "(self, f)");
        },
    }
    assert(out@ =~= old(out)@ + display_arm(*variant, root@));
}

/// The display arms, separated by commas.
pub open spec fn display_arms(variants: Seq<Variant>, root: Seq<char>) -> Seq<char>
    decreases variants.len(),
{
    if variants.len() == 0 {
        Seq::empty()
    } else if variants.len() == 1 {
        display_arm(variants[0], root)
    } else {
        display_arms(variants.drop_last(), root) + ", "@ + display_arm(variants.last(), root)
    }
}

/// The generated `Display` impl of an enumeration.
pub open spec fn enumeration_display(
    name: Ident,
    generics: Generics,
    variants: Seq<Variant>,
    inline: Seq<char>,
    root: Seq<char>,
) -> Seq<char> {
    impl_head(generics, variants_display_predicates(variants, root), root + "::fmt::Display"@, name.text@) + " { "@
        + inline + " "@ + fmt_signature(root) + " { match self { "@ + display_arms(variants, root) + " } } }"@
}

/// Add the display bounds of every variant, in order.
fn add_variants_display_predicates(g: &mut Generics, variants: &Vec<Variant>, root: &Vec<char>)
    ensures
        final(g).impl_generics == old(g).impl_generics,
        final(g).type_generics == old(g).type_generics,
        final(g).where_clause is Some <==> (old(g).where_clause is Some || variants_display_predicates(variants@, root@).len() > 0),
        final(g).predicates() == old(g).predicates() + variants_display_predicates(variants@, root@),
{
    let mut i: usize = 0;
    assert(g.predicates() =~= old(g).predicates() + variants_display_predicates(variants@.take(0), root@));
    while i < variants.len()
        invariant
            i <= variants@.len(),
            g.impl_generics == old(g).impl_generics,
            g.type_generics == old(g).type_generics,
            g.where_clause is Some <==> (old(g).where_clause is Some || variants_display_predicates(variants@.take(i as int), root@).len() > 0),
            g.predicates() == old(g).predicates() + variants_display_predicates(variants@.take(i as int), root@),
        decreases variants.len() - i,
    {
        assert(variants@.take(i + 1).drop_last() =~= variants@.take(i as int));
        add_display_predicates(g, &variants[i].display, root);
        i = i + 1;
        assert(g.predicates() =~= old(g).predicates() + variants_display_predicates(variants@.take(i as int), root@));
    }
    assert(variants@.take(variants@.len() as int) =~= variants@);
}

/// Append the display arms, separated by commas.
fn push_display_arms(out: &mut Vec<char>, variants: &Vec<Variant>, root: &Vec<char>)
    ensures
        final(out)@ == old(out)@ + display_arms(variants@, root@),
{
    let mut k: usize = 0;
    assert(old(out)@ + display_arms(variants@.take(0), root@) =~= old(out)@);
    while k < variants.len()
        invariant
            k <= variants@.len(),
            out@ == old(out)@ + display_arms(variants@.take(k as int), root@),
        decreases variants.len() - k,
    {
        assert(variants@.take(k + 1).drop_last() =~= variants@.take(k as int));
        if k > 0 {
            push_str(out, ", ");
        }
        push_display_arm(out, &variants[k], root);
        k = k + 1;
        assert(out@ =~= old(out)@ + display_arms(variants@.take(k as int), root@));
    }
    assert(variants@.take(variants@.len() as int) =~= variants@);
}

/// Append the generated `Display` impl of an enumeration.
pub fn push_enumeration_display(out: &mut Vec<char>, name: &Ident, generics: &Generics, variants: &Vec<Variant>, context: &Context)
    ensures
        final(out)@ == old(out)@ + enumeration_display(*name, *generics, variants@, context.inline@, context.root@),
{
    let root = &context.root;
    let mut g = generics.duplicate();
    add_variants_display_predicates(&mut g, variants, root);
    let mut trait_text: Vec<char> = Vec::new();
    push_chars(&mut trait_text, root);
    push_str(&mut trait_text, "::fmt::Display");
    push_impl_head(out, &g, &trait_text, &name.text);
    push_str(out, " { ");
    push_chars(out, &context.inline);
    push_str(out, " ");
    push_fmt_signature(out, root);
    push_str(out, " { match self { ");
    push_display_arms(out, variants, root);
    push_str(out, " } } }");
    assert(out@ =~= old(out)@ + enumeration_display(*name, *generics, variants@, context.inline@, context.root@));
}

} // verus!

verus! {

/// Every bound that captures require is the formatting trait of one capture
/// applied to that capture's field type.
pub proof fn lemma_use_predicates_come_from_uses(uses: Seq<FormatUse>, root: Seq<char>)
    ensures
        forall|k: int|
            0 <= k < use_predicates(uses, root).len() ==> exists|j: int|
                0 <= j < uses.len() && trait_name(uses[j].format_trait) is Some && #[trigger] use_predicates(uses, root)[k]
                    == uses[j].field.ty.text@ + ": "@ + root + "::fmt::"@ + trait_name(uses[j].format_trait)->Some_0,
    decreases uses.len(),
{
    if uses.len() > 0 {
        let rest = uses.drop_last();
        lemma_use_predicates_come_from_uses(rest, root);
        assert forall|k: int| 0 <= k < use_predicates(uses, root).len() implies exists|j: int|
            0 <= j < uses.len() && trait_name(uses[j].format_trait) is Some && #[trigger] use_predicates(uses, root)[k]
                == uses[j].field.ty.text@ + ": "@ + root + "::fmt::"@ + trait_name(uses[j].format_trait)->Some_0 by {
            if k < use_predicates(rest, root).len() {
                let j = choose|j: int|
                    0 <= j < rest.len() && trait_name(rest[j].format_trait) is Some && #[trigger] use_predicates(rest, root)[k]
                        == rest[j].field.ty.text@ + ": "@ + root + "::fmt::"@ + trait_name(rest[j].format_trait)->Some_0;
                assert(rest[j] == uses[j]);
            } else {
                assert(uses[uses.len() - 1] == uses.last());
            }
        }
    }
}

/// Formatting bounds are added only where the generated implementation needs
/// them: the display bounds of a format are those of its captures, one per
/// capture with a formatting trait, and every captured field is one that the
/// generated pattern binds; fields the message does not read acquire no bound.
pub proof fn law_format_bounds_only_on_bound_fields(
    format: crate::input::format::Format,
    fields: Fields,
    resolved: Resolved,
    root: Seq<char>,
    reading: crate::semantic::format::Reading,
)
    requires
        crate::semantic::validate::display_describes(
            fields,
            crate::input::attribute::Display::Format(format),
            Display::Format(resolved),
            reading,
        ),
    ensures
        display_predicates(Display::Format(resolved), root) == use_predicates(resolved.spec_uses(), root),
        forall|j: int|
            0 <= j < resolved.spec_uses().len() ==> format_binding(fields, resolved).contains(
                #[trigger] resolved.spec_uses()[j].field,
            ),
{
    let uses = resolved.spec_uses();
    crate::semantic::format::lemma_resolution_selection(format, fields, reading);
    assert forall|j: int| 0 <= j < uses.len() implies format_binding(fields, resolved).contains(#[trigger] uses[j].field) by {
        let f = uses[j].field;
        let selected = crate::semantic::format::spec_resolution(format, fields, reading)->Ok_0.2;
        assert(selected.contains(f));
        if let Resolved::Dynamic(d) = resolved {
            if let BindingRequirement::All = d.bindings {
                let s = choose|s: int| 0 <= s < selected.len() && selected[s] == f;
                assert(fields.owns(selected[s]));
                assert(all_fields(fields)[f.index as int] == f);
            }
        }
    }
}

/// The trait a capture's specifier formats with, as Rust's formatting
/// machinery picks it from the specifier's last character: `x` LowerHex, `X`
/// UpperHex, `o` Octal, `b` Binary, `e` LowerExp, `E` UpperExp, `?` Debug,
/// `p` pointer formatting (no trait bound), anything else (and no specifier)
/// Display. The where bound added for the capture names that trait.
pub proof fn law_specifier_selects_trait(spec: Seq<char>)
    ensures
        spec.len() > 0 && spec.last() == 'x' ==> trait_name(spec_format_trait(spec)) == Some("LowerHex"@),
        spec.len() > 0 && spec.last() == 'X' ==> trait_name(spec_format_trait(spec)) == Some("UpperHex"@),
        spec.len() > 0 && spec.last() == 'o' ==> trait_name(spec_format_trait(spec)) == Some("Octal"@),
        spec.len() > 0 && spec.last() == 'b' ==> trait_name(spec_format_trait(spec)) == Some("Binary"@),
        spec.len() > 0 && spec.last() == 'e' ==> trait_name(spec_format_trait(spec)) == Some("LowerExp"@),
        spec.len() > 0 && spec.last() == 'E' ==> trait_name(spec_format_trait(spec)) == Some("UpperExp"@),
        spec.len() > 0 && spec.last() == '?' ==> trait_name(spec_format_trait(spec)) == Some("Debug"@),
        spec.len() > 0 && spec.last() == 'p' ==> trait_name(spec_format_trait(spec)) is None,
        (spec.len() == 0 || !(spec.last() == 'x' || spec.last() == 'X' || spec.last() == 'o' || spec.last() == 'b'
            || spec.last() == 'e' || spec.last() == 'E' || spec.last() == '?' || spec.last() == 'p')) ==> trait_name(
            spec_format_trait(spec),
        ) == Some("Display"@),
{
}

/// The bound that a format use adds names the trait its specifier selects:
/// `T: root::fmt::Trait` for the captured field's type `T`.
pub proof fn law_use_bound_names_trait(u: FormatUse, root: Seq<char>)
    requires
        trait_name(u.format_trait) is Some,
    ensures
        use_predicates(seq![u], root) == seq![u.field.ty.text@ + ": "@ + root + "::fmt::"@ + trait_name(u.format_trait)->Some_0],
{
    assert(seq![u].drop_last() =~= Seq::<FormatUse>::empty());
    assert(use_predicates(Seq::<FormatUse>::empty(), root) =~= Seq::<Seq<char>>::empty());
}

/// The generated `fmt` method: a custom display calls `path(self, f)`, a
/// transparent display binds the field and forwards to its `Display`, and a
/// format writes its literal (binding the captured fields when it has any).
pub proof fn law_display_body_forms(fields: Fields, display: Display, root: Seq<char>)
    ensures
        fmt_signature(root) == "fn fmt(&self, f: &mut "@ + root + "::fmt::Formatter<'_>) -> "@ + root + "::fmt::Result"@,
        display matches Display::Custom(path) ==> display_body(fields, display, root) == path.text@ + "(self, f)"@,
        display matches Display::Transparent(field) ==> display_body(fields, display, root) == "let &Self "@ + pattern(
            fields,
            seq![field],
        ) + " = self; "@ + root + "::fmt::Display::fmt("@ + binding_name(field) + ", f)"@,
        display matches Display::Format(format) ==> (format is Static ==> display_body(fields, display, root)
            == format_text(format, root)),
{
}

} // verus!
