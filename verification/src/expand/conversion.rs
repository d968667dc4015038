//! Automatic `From` implementation expansion.
//!
//! Each validated conversion constructs either the structure or one enum
//! variant from the value of its sole field.

use vstd::prelude::*;

use crate::ast::{Generics, Ident};
use crate::expand::{impl_head, push_impl_head, Context};
use crate::semantic::Conversion;
use crate::text::{push_chars, push_str};

verus! {

/// The expression that builds the error from `value`: the structure, or the
/// variant `variant`, with the conversion field set to `value`.
pub open spec fn construct_text(variant: Option<Ident>, conversion: Conversion) -> Seq<char> {
    let head = match variant {
        Some(v) => "Self::"@ + v.text@,
        None => "Self"@,
    };
    match conversion.field.name {
        Some(field) => head + " { "@ + field.text@ + ": value }"@,
        None => head + "(value)"@,
    }
}

/// Append the expression that builds the error from `value`.
fn push_construct(out: &mut Vec<char>, variant: Option<&Ident>, conversion: &Conversion)
    ensures
        final(out)@ == old(out)@ + construct_text(
            match variant {
                Some(v) => Some(*v),
                None => None,
            },
            *conversion,
        ),
{
    match variant {
        Some(v) => {
            push_str(out, "Self::");
            push_str(out, v.text.as_str());
        },
        None => push_str(out, "Self"),
    }
    match &conversion.field.name {
        Some(f) => {
            push_str(out, " { ");
            push_str(out, f.text.as_str());
            push_str(out, ": value }");
        },
        None => push_str(out, "(value)"),
    }
    assert(out@ =~= old(out)@ + construct_text(
        match variant {
            Some(v) => Some(*v),
            None => None,
        },
        *conversion,
    ));
}

/// The generated `From` impl of one conversion.
pub open spec fn conversion_impl(
    name: Ident,
    generics: Generics,
    variant: Option<Ident>,
    conversion: Conversion,
    inline: Seq<char>,
) -> Seq<char> {
    let ty = conversion.field.ty.text@;
    impl_head(generics, Seq::empty(), "From<"@ + ty + ">"@, name.text@) + " { "@ + inline + " fn from(value: "@ + ty
        + ") -> Self { "@ + construct_text(variant, conversion) + " } }"@
}

/// Append the generated `From` impl of one conversion.
pub fn push_conversion(
    out: &mut Vec<char>,
    name: &Ident,
    generics: &Generics,
    variant: Option<&Ident>,
    conversion: &Conversion,
    context: &Context,
)
    ensures
        final(out)@ == old(out)@ + conversion_impl(
            *name,
            *generics,
            match variant {
                Some(v) => Some(*v),
                None => None,
            },
            *conversion,
            context.inline@,
        ),
{
    let field = conversion.field();
    let ty = &field.ty.text;
    let mut trait_text: Vec<char> = Vec::new();
    push_str(&mut trait_text, "From<");
    push_str(&mut trait_text, ty.as_str());
    push_str(&mut trait_text, ">");
    assert(generics.predicates() + Seq::<Seq<char>>::empty() =~= generics.predicates());
    push_impl_head(out, generics, &trait_text, &name.text);
    push_str(out, " { ");
    push_chars(out, &context.inline);
    push_str(out, " fn from(value: ");
    push_str(out, ty.as_str());
    push_str(out, ") -> Self { ");
    push_construct(out, variant, conversion);
    push_str(out, " } }");
    assert(out@ =~= old(out)@ + conversion_impl(
        *name,
        *generics,
        match variant {
            Some(v) => Some(*v),
            None => None,
        },
        *conversion,
        context.inline@,
    ));
}

/// The `From` constructor sets the converted field by its name whenever the
/// field is named, for a structure and an enum variant alike
/// (`Self { f: value }`, `Self::V { f: value }`), and passes the value
/// positionally only for a tuple field (`Self(value)`, `Self::V(value)`).
/// The variant constructor is the structure constructor with `Self` replaced
/// by the variant's path.
pub proof fn law_construct_sets_the_field(variant: Ident, conversion: Conversion)
    ensures
        conversion.field.name is Some ==> construct_text(None, conversion) == "Self { "@ + conversion.field.name->Some_0.text@
            + ": value }"@,
        conversion.field.name is None ==> construct_text(None, conversion) == "Self(value)"@,
        construct_text(Some(variant), conversion) == "Self::"@ + variant.text@ + construct_text(None, conversion).skip(4),
{
    reveal_strlit("Self");
    reveal_strlit("Self { ");
    reveal_strlit(" { ");
    reveal_strlit("Self(value)");
    reveal_strlit("(value)");
    let head = "Self::"@ + variant.text@;
    match conversion.field.name {
        Some(f) => {
            assert(construct_text(None, conversion) =~= "Self { "@ + f.text@ + ": value }"@);
            assert(construct_text(None, conversion).skip(4) =~= " { "@ + f.text@ + ": value }"@);
            assert(construct_text(Some(variant), conversion) =~= head + (" { "@ + f.text@ + ": value }"@));
        },
        None => {
            assert(construct_text(None, conversion) =~= "Self(value)"@);
            assert(construct_text(None, conversion).skip(4) =~= "(value)"@);
        },
    }
}

/// The generated conversion implements `From<T>` for the error, where `T` is
/// the type of the converted field, adds no bounds of its own, and its `from`
/// takes a `T` and builds the error with that field set to it.
pub proof fn law_conversion_impl_shape(
    name: Ident,
    generics: Generics,
    variant: Option<Ident>,
    conversion: Conversion,
    inline: Seq<char>,
)
    ensures
        conversion_impl(name, generics, variant, conversion, inline) == impl_head(
            generics,
            Seq::empty(),
            "From<"@ + conversion.field.ty.text@ + ">"@,
            name.text@,
        ) + " { "@ + inline + " fn from(value: "@ + conversion.field.ty.text@ + ") -> Self { "@ + construct_text(
            variant,
            conversion,
        ) + " } }"@,
{
}

} // verus!
