//! Proof transition from parsed declarations to validated semantics.
//!
//! Validation resolves every field selector and format capture exactly once,
//! then constructs semantic states that expansion can consume without
//! defensive checks or source-level lookup.

use vstd::prelude::*;

use crate::ast::{is_diagnostic, Error, Ident, Span};
use crate::input::attribute::{
    Declaration as InputDeclaration, Display as InputDisplay, Failure, Source as InputSource,
};
use crate::input::field::{FieldRef, Fields};
use crate::input::target::{
    Enumeration as InputEnumeration, Structure as InputStructure, Target as InputTarget, Variant as InputVariant,
};
use crate::semantic::format::{sound_reading, spec_resolution, Reading, Resolved};
use crate::semantic::source::Source;
use crate::semantic::{
    Conversion, Display, Enumeration, ErrorSource, Header, Structure, Target, Variant,
};

verus! {

/// What validating a transparent declaration over `field` gives.
pub open spec fn spec_transparent(fields: Fields, field: FieldRef) -> Result<(Display, ErrorSource, Option<Conversion>), Failure> {
    match fields.spec_resolve(field) {
        Err(m) => Err((field.spec_span(), m)),
        Ok(f) => match Source::spec_new(f).spec_into_transparent() {
            None => Err((field.spec_span(), "transparent error source cannot be optional"@)),
            Some(t) => Ok((Display::Transparent(f), ErrorSource::Transparent(t), None)),
        },
    }
}

/// What requesting a conversion by the `from` keyword gives: the sole field,
/// or a diagnostic when there is not exactly one field.
pub open spec fn spec_conversion(fields: Fields, from: Ident) -> Result<Conversion, Failure> {
    if fields.spec_len() == 1 {
        Ok(Conversion { field: fields.spec_at(0).unwrap() })
    } else {
        Err((fields.spec_declaration_span(from.span), "expected exactly one field"@))
    }
}

/// What validating ordinary source and conversion syntax gives.
pub open spec fn spec_source(fields: Fields, source: InputSource) -> Result<(ErrorSource, Option<Conversion>), Failure> {
    match source {
        InputSource::Absent => Ok((ErrorSource::Absent, None)),
        InputSource::Explicit(field) => match fields.spec_resolve(field) {
            Err(m) => Err((field.spec_span(), m)),
            Ok(f) => Ok((ErrorSource::Field(Source::spec_new(f)), None)),
        },
        InputSource::From(from) => match spec_conversion(fields, from) {
            Err(e) => Err(e),
            Ok(c) => Ok((ErrorSource::Field(Source::spec_new(c.field)), Some(c))),
        },
        InputSource::ExplicitFrom { field, from } => match spec_conversion(fields, from) {
            Err(e) => Err(e),
            Ok(c) => match fields.spec_resolve(field) {
                Err(m) => Err((field.spec_span(), m)),
                Ok(f) => if f == c.field {
                    Ok((ErrorSource::Field(Source::spec_new(f)), Some(c)))
                } else {
                    Err((field.spec_span(), "`from` conversion and explicit source must refer to the same field"@))
                },
            },
        },
    }
}

/// The diagnostic of an ordinary display declaration, if it fails, with
/// capture heads read by `reading`.
pub open spec fn display_failure(fields: Fields, display: InputDisplay, reading: Reading) -> Option<Failure> {
    match display {
        InputDisplay::Format(f) => match spec_resolution(f, fields, reading) {
            Err(m) => Some((f.literal.span, m)),
            Ok(_) => None,
        },
        InputDisplay::Custom(_) => None,
    }
}

/// Whether `out` is the validated form of a successful display declaration.
pub open spec fn display_describes(fields: Fields, display: InputDisplay, out: Display, reading: Reading) -> bool {
    match display {
        InputDisplay::Format(f) => match spec_resolution(f, fields, reading) {
            Ok((text, uses, selected)) => out matches Display::Format(r) && r.describes(f, text, uses, selected),
            Err(_) => false,
        },
        InputDisplay::Custom(p) => out == Display::Custom(p),
    }
}

/// The diagnostic of a declaration validated against `fields`, if it fails.
pub open spec fn declaration_failure(fields: Fields, declaration: InputDeclaration, reading: Reading) -> Option<Failure> {
    match declaration {
        InputDeclaration::Transparent(field) => match spec_transparent(fields, field) {
            Err(f) => Some(f),
            Ok(_) => None,
        },
        InputDeclaration::Ordinary(o) => match display_failure(fields, o.display, reading) {
            Some(f) => Some(f),
            None => match spec_source(fields, o.source) {
                Err(f) => Some(f),
                Ok(_) => None,
            },
        },
    }
}

/// Whether `out` is the validated form of a successful declaration.
pub open spec fn declaration_describes(
    fields: Fields,
    declaration: InputDeclaration,
    out: (Display, ErrorSource, Option<Conversion>),
    reading: Reading,
) -> bool {
    match declaration {
        InputDeclaration::Transparent(field) => spec_transparent(fields, field) == Ok::<
            (Display, ErrorSource, Option<Conversion>),
            Failure,
        >(out),
        InputDeclaration::Ordinary(o) => display_describes(fields, o.display, out.0, reading) && spec_source(fields, o.source)
            == Ok::<(ErrorSource, Option<Conversion>), Failure>((out.1, out.2)),
    }
}

/// A resolved selector gives a field proof owned by the collection.
proof fn lemma_resolve_owns(fields: Fields, field: FieldRef)
    ensures
        fields.spec_resolve(field) matches Ok(f) ==> fields.owns(f),
{
    match field {
        FieldRef::Named(name) => fields.lemma_lookup_owns(name.text@),
        FieldRef::Indexed { index, .. } => {},
    }
}

/// Resolve one selector, reporting the failure at the selector.
fn resolve(fields: &Fields, field: FieldRef) -> (r: Result<crate::input::field::Field, Error>)
    ensures
        match fields.spec_resolve(field) {
            Ok(f) => r == Ok::<crate::input::field::Field, Error>(f),
            Err(m) => r matches Err(e) && e@ == seq![(field.spec_span(), m)],
        },
{
    let ghost selector = field;
    match fields.resolve(field) {
        Ok(f) => Ok(f),
        Err(e) => {
            assert(e@ =~= seq![(selector.spec_span(), fields.spec_resolve(selector)->Err_0)]);
            Err(e)
        },
    }
}

/// Construct conversion semantics from the sole declared field.
fn conversion(fields: &Fields, from: &Ident) -> (r: Result<Conversion, Error>)
    ensures
        match spec_conversion(*fields, *from) {
            Ok(c) => r == Ok::<Conversion, Error>(c),
            Err(f) => r matches Err(e) && e@ == seq![f],
        },
{
    match fields.sole(from.span) {
        Ok(field) => Ok(Conversion::new(field)),
        Err(e) => {
            assert(e@ =~= seq![e@[0]]);
            Err(e)
        },
    }
}

/// Resolve ordinary source and conversion behavior.
fn validate_source(fields: &Fields, source: InputSource) -> (r: Result<(ErrorSource, Option<Conversion>), Error>)
    ensures
        match spec_source(*fields, source) {
            Ok(v) => r == Ok::<(ErrorSource, Option<Conversion>), Error>(v),
            Err(f) => r matches Err(e) && e@ == seq![f],
        },
{
    match source {
        InputSource::Absent => Ok((ErrorSource::Absent, None)),
        InputSource::Explicit(field) => {
            let field = resolve(fields, field)?;
            Ok((ErrorSource::Field(Source::new(field)), None))
        },
        InputSource::From(from) => {
            let conversion = conversion(fields, &from)?;
            let source = Source::new(conversion.field().duplicate());
            Ok((ErrorSource::Field(source), Some(conversion)))
        },
        InputSource::ExplicitFrom { field, from } => {
            let ghost selector = field;
            let span = field.span();
            let conversion = conversion(fields, &from)?;
            let explicit = resolve(fields, field)?;
            proof {
                lemma_resolve_owns(*fields, selector);
            }
            if explicit.index == conversion.field.index {
                Ok((ErrorSource::Field(Source::new(explicit)), Some(conversion)))
            } else {
                let e = Error::new(span, "`from` conversion and explicit source must refer to the same field");
                assert(e@ =~= seq![(span, "`from` conversion and explicit source must refer to the same field"@)]);
                Err(e)
            }
        },
    }
}

/// Resolve transparent display and source behavior.
fn transparent(fields: &Fields, field: FieldRef) -> (r: Result<(Display, ErrorSource, Option<Conversion>), Error>)
    ensures
        match spec_transparent(*fields, field) {
            Ok(v) => r == Ok::<(Display, ErrorSource, Option<Conversion>), Error>(v),
            Err(f) => r matches Err(e) && e@ == seq![f],
        },
{
    let span = field.span();
    let field = resolve(fields, field)?;
    let source = Source::new(field.duplicate());
    match source.into_transparent() {
        Some(source) => Ok((Display::Transparent(field), ErrorSource::Transparent(source), None)),
        None => {
            let e = Error::new(span, "transparent error source cannot be optional");
            assert(e@ =~= seq![(span, "transparent error source cannot be optional"@)]);
            Err(e)
        },
    }
}

/// Resolve one ordinary display declaration.
fn validate_display(fields: &Fields, display: InputDisplay) -> (r: Result<Display, Error>)
    ensures
        exists|reading: Reading|
            sound_reading(reading) && match #[trigger] display_failure(*fields, display, reading) {
                Some(f) => r matches Err(e) && e@ == seq![f],
                None => r matches Ok(d) && display_describes(*fields, display, d, reading),
            },
{
    match display {
        InputDisplay::Format(format) => {
            let ghost raw = format;
            let r = Resolved::resolve(format, fields);
            proof {
                let w = choose|reading: Reading|
                    sound_reading(reading) && match #[trigger] spec_resolution(raw, *fields, reading) {
                        Ok((text, uses, selected)) => r matches Ok(res) && res.describes(raw, text, uses, selected),
                        Err(m) => r matches Err(e) && e@.len() == 1 && crate::ast::is_diagnostic(e@[0], raw.literal.span, m),
                    };
                if r is Err {
                    assert(r->Err_0@ =~= seq![(raw.literal.span, spec_resolution(raw, *fields, w)->Err_0)]);
                }
                assert(display_failure(*fields, display, w) == display_failure(*fields, display, w));
            }
            match r {
                Ok(resolved) => Ok(Display::Format(resolved)),
                Err(e) => Err(e),
            }
        },
        InputDisplay::Custom(path) => {
            let ghost w = |k: nat, t: Seq<char>| crate::text::word_ident(t);
            assert(sound_reading(w));
            assert(display_failure(*fields, display, w) is None);
            Ok(Display::Custom(path))
        },
    }
}

/// Resolve all field dependent behavior of one declaration into semantic
/// state.
pub fn validate_declaration(fields: &Fields, declaration: InputDeclaration) -> (r: Result<
    (Display, ErrorSource, Option<Conversion>),
    Error,
>)
    ensures
        exists|reading: Reading|
            sound_reading(reading) && match #[trigger] declaration_failure(*fields, declaration, reading) {
                Some(f) => r matches Err(e) && e@ == seq![f],
                None => r matches Ok(out) && declaration_describes(*fields, declaration, out, reading),
            },
{
    match declaration {
        InputDeclaration::Transparent(field) => {
            let ghost w = |k: nat, t: Seq<char>| crate::text::word_ident(t);
            let r = transparent(fields, field);
            assert(sound_reading(w));
            assert(declaration_failure(*fields, declaration, w) == declaration_failure(*fields, declaration, w));
            r
        },
        InputDeclaration::Ordinary(ordinary) => {
            let ghost o = ordinary;
            let (d, s) = ordinary.parts();
            let ghost d0 = d;
            let d = validate_display(fields, d);
            let ghost w = choose|reading: Reading|
                sound_reading(reading) && match #[trigger] display_failure(*fields, d0, reading) {
                    Some(f) => d matches Err(e) && e@ == seq![f],
                    None => d matches Ok(x) && display_describes(*fields, d0, x, reading),
                };
            assert(declaration_failure(*fields, declaration, w) == declaration_failure(*fields, declaration, w));
            let d = match d {
                Ok(d) => d,
                Err(e) => return Err(e),
            };
            let (s, c) = match validate_source(fields, s) {
                Ok(v) => v,
                Err(e) => return Err(e),
            };
            Ok((d, s, c))
        },
    }
}

} // verus!

verus! {

/// Whether `out` is the validated form of a variant that validates.
pub open spec fn variant_describes(input: InputVariant, out: Variant, reading: Reading) -> bool {
    &&& out.name == input.name
    &&& out.fields == input.fields
    &&& declaration_describes(input.fields, input.declaration, (out.display, out.source, out.conversion), reading)
}

/// Whether every variant's reading is sound.
pub open spec fn sound_readings(readings: spec_fn(int) -> Reading) -> bool {
    forall|i: int| #[trigger] sound_reading(readings(i))
}

/// The diagnostic of the first variant that fails validation, if any, with
/// the capture heads of variant `i` read by `readings(i)`.
pub open spec fn first_failure(variants: Seq<InputVariant>, readings: spec_fn(int) -> Reading) -> Option<Failure>
    decreases variants.len(),
{
    if variants.len() == 0 {
        None
    } else {
        match first_failure(variants.drop_last(), readings) {
            Some(f) => Some(f),
            None => declaration_failure(variants.last().fields, variants.last().declaration, readings(variants.len() - 1)),
        }
    }
}

/// A failure among the first variants is the failure of the whole list.
proof fn lemma_first_failure_prefix(variants: Seq<InputVariant>, k: int, readings: spec_fn(int) -> Reading)
    requires
        0 <= k <= variants.len(),
        first_failure(variants.take(k), readings) is Some,
    ensures
        first_failure(variants, readings) == first_failure(variants.take(k), readings),
    decreases variants.len() - k,
{
    if k < variants.len() {
        assert(variants.take(k + 1).drop_last() =~= variants.take(k));
        lemma_first_failure_prefix(variants, k + 1, readings);
    } else {
        assert(variants.take(k) =~= variants);
    }
}

/// No variant failing means no first failure.
proof fn lemma_no_failure(variants: Seq<InputVariant>, readings: spec_fn(int) -> Reading)
    requires
        forall|k: int|
            0 <= k < variants.len() ==> (#[trigger] declaration_failure(variants[k].fields, variants[k].declaration, readings(k))) is None,
    ensures
        first_failure(variants, readings) is None,
    decreases variants.len(),
{
    if variants.len() > 0 {
        let rest = variants.drop_last();
        assert forall|k: int| 0 <= k < rest.len() implies (#[trigger] declaration_failure(rest[k].fields, rest[k].declaration, readings(k))) is None by {
            assert(rest[k] == variants[k]);
        }
        lemma_no_failure(rest, readings);
        assert(declaration_failure(variants[variants.len() - 1].fields, variants[variants.len() - 1].declaration, readings(variants.len() - 1)) is None);
    }
}

/// The header that a parsed configuration, name and generics give.
pub open spec fn header_of(config: crate::input::attribute::Config, name: Ident, generics: crate::ast::Generics) -> Header {
    Header { inline: config.inline, import: config.import, name, generics }
}

/// The diagnostic of a parsed target that fails validation, if any: that of
/// its declaration, or of its first failing variant. A structure's heads are
/// read by `readings(0)`.
pub open spec fn target_failure(target: InputTarget, readings: spec_fn(int) -> Reading) -> Option<Failure> {
    match target {
        InputTarget::Struct(s) => declaration_failure(s.fields, s.declaration, readings(0)),
        InputTarget::Enum(e) => first_failure(e.variants@, readings),
    }
}

/// Whether `out` is the validated form of a parsed target that validates.
pub open spec fn target_describes(target: InputTarget, out: Target, readings: spec_fn(int) -> Reading) -> bool {
    match target {
        InputTarget::Struct(s) => out matches Target::Struct(v) && v.header == header_of(s.config, s.name, s.generics)
            && v.fields == s.fields && declaration_describes(
            s.fields,
            s.declaration,
            (v.display, v.source, v.conversion),
            readings(0),
        ),
        InputTarget::Enum(e) => out matches Target::Enum(v) && v.header == header_of(e.config, e.name, e.generics)
            && v.variants@.len() == e.variants@.len() && forall|i: int|
            0 <= i < e.variants@.len() ==> variant_describes(e.variants@[i], #[trigger] v.variants@[i], readings(i)),
    }
}

/// The readings recorded per variant, and the word reading elsewhere.
pub open spec fn readings_of(recorded: Map<int, Reading>) -> spec_fn(int) -> Reading {
    |i: int| if recorded.contains_key(i) { recorded[i] } else { crate::semantic::format::word_reading() }
}

/// The first `n` variants validated, each by its recorded reading, without
/// failure.
pub open spec fn prefix_validated(all: Seq<InputVariant>, out: Seq<Variant>, recorded: Map<int, Reading>, n: int) -> bool {
    forall|k: int|
        0 <= k < n ==> #[trigger] recorded.contains_key(k) && declaration_failure(all[k].fields, all[k].declaration, recorded[k])
            is None && variant_describes(all[k], out[k], recorded[k])
}

/// Validating one more variant extends the validated prefix.
proof fn lemma_extend_prefix(all: Seq<InputVariant>, out: Seq<Variant>, recorded: Map<int, Reading>, n: int, v: Variant, w: Reading)
    requires
        0 <= n < all.len(),
        out.len() == n,
        prefix_validated(all, out, recorded, n),
        declaration_failure(all[n].fields, all[n].declaration, w) is None,
        variant_describes(all[n], v, w),
    ensures
        prefix_validated(all, out.push(v), recorded.insert(n, w), n + 1),
{
    let out2 = out.push(v);
    let rec2 = recorded.insert(n, w);
    assert forall|k: int| 0 <= k < n + 1 implies #[trigger] rec2.contains_key(k) && declaration_failure(all[k].fields, all[k].declaration, rec2[k])
        is None && variant_describes(all[k], out2[k], rec2[k]) by {
        if k < n {
            assert(recorded.contains_key(k));
            assert(out2[k] == out[k]);
        }
    }
}

/// Resolve one parsed structure into validated semantics.
fn validate_structure(structure: InputStructure) -> (r: Result<Structure, Error>)
    ensures
        exists|reading: Reading|
            sound_reading(reading) && match #[trigger] declaration_failure(structure.fields, structure.declaration, reading) {
                Some(f) => r matches Err(e) && e@ == seq![f],
                None => r matches Ok(v) && v.header == header_of(structure.config, structure.name, structure.generics)
                    && v.fields == structure.fields && declaration_describes(
                    structure.fields,
                    structure.declaration,
                    (v.display, v.source, v.conversion),
                    reading,
                ),
            },
{
    let (config, name, generics, fields, declaration) = structure.parts();
    let (inline, import) = config.parts();
    let validated = validate_declaration(&fields, declaration);
    let ghost w = choose|reading: Reading|
        sound_reading(reading) && match #[trigger] declaration_failure(fields, declaration, reading) {
            Some(f) => validated matches Err(e) && e@ == seq![f],
            None => validated matches Ok(out) && declaration_describes(fields, declaration, out, reading),
        };
    assert(declaration_failure(structure.fields, structure.declaration, w) == declaration_failure(fields, declaration, w));
    let (display, source, conversion) = match validated {
        Ok(v) => v,
        Err(e) => return Err(e),
    };
    let header = Header::new(inline, import, name, generics);
    Ok(Structure::new(header, fields, display, source, conversion))
}

/// Resolve one parsed variant into validated semantics.
fn validate_variant(variant: InputVariant) -> (r: Result<Variant, Error>)
    ensures
        exists|reading: Reading|
            sound_reading(reading) && match #[trigger] declaration_failure(variant.fields, variant.declaration, reading) {
                Some(f) => r matches Err(e) && e@ == seq![f],
                None => r matches Ok(v) && variant_describes(variant, v, reading),
            },
{
    let (name, fields, declaration) = variant.parts();
    let validated = validate_declaration(&fields, declaration);
    let ghost w = choose|reading: Reading|
        sound_reading(reading) && match #[trigger] declaration_failure(fields, declaration, reading) {
            Some(f) => validated matches Err(e) && e@ == seq![f],
            None => validated matches Ok(out) && declaration_describes(fields, declaration, out, reading),
        };
    assert(declaration_failure(variant.fields, variant.declaration, w) == declaration_failure(fields, declaration, w));
    let (display, source, conversion) = match validated {
        Ok(v) => v,
        Err(e) => return Err(e),
    };
    Ok(Variant::new(name, fields, display, source, conversion))
}

/// Resolve every parsed variant, stopping at the first that fails.
fn validate_enumeration(enumeration: InputEnumeration) -> (r: Result<Enumeration, Error>)
    ensures
        exists|readings: spec_fn(int) -> Reading|
            sound_readings(readings) && match #[trigger] first_failure(enumeration.variants@, readings) {
                Some(f) => r matches Err(e) && e@ == seq![f],
                None => r matches Ok(v) && v.header == header_of(enumeration.config, enumeration.name, enumeration.generics)
                    && v.variants@.len() == enumeration.variants@.len() && forall|i: int|
                    0 <= i < enumeration.variants@.len() ==> variant_describes(
                        enumeration.variants@[i],
                        #[trigger] v.variants@[i],
                        readings(i),
                    ),
            },
{
    let (config, name, generics, variants) = enumeration.parts();
    let (inline, import) = config.parts();
    let mut variants = variants;
    let ghost all = variants@;
    let mut validated: Vec<Variant> = Vec::new();
    let ghost mut recorded: Map<int, Reading> = Map::empty();
    let ghost mut i: int = 0;
    while variants.len() > 0
        invariant
            0 <= i <= all.len(),
            all == enumeration.variants@,
            variants@ == all.skip(i),
            validated@.len() == i,
            forall|k: int| #[trigger] recorded.contains_key(k) ==> sound_reading(recorded[k]),
            prefix_validated(all, validated@, recorded, i),
        decreases variants.len(),
    {
        let variant = variants.remove(0);
        proof {
            assert(i < all.len());
            assert(all.take(i + 1).drop_last() =~= all.take(i));
            assert(all.take(i + 1).last() == all[i]);
            assert(variants@ =~= all.skip(i + 1));
            assert(variant == all[i]);
        }
        let ghost v0 = variant;
        let result = validate_variant(variant);
        let ghost w = choose|reading: Reading|
            sound_reading(reading) && match #[trigger] declaration_failure(v0.fields, v0.declaration, reading) {
                Some(f) => result matches Err(e) && e@ == seq![f],
                None => result matches Ok(v) && variant_describes(v0, v, reading),
            };
        let v = match result {
            Ok(v) => v,
            Err(e) => {
                proof {
                    let rec = recorded.insert(i, w);
                    let readings = readings_of(rec);
                    assert forall|j: int| #[trigger] sound_reading(readings(j)) by {
                        if rec.contains_key(j) {
                            assert(sound_reading(rec[j]));
                        } else {
                            assert forall|k: nat, t: Seq<char>| crate::text::word_text(t) implies #[trigger] readings(j)(k, t) == crate::text::word_ident(t) by {}
                        }
                    }
                    let pre = all.take(i);
                    assert forall|k: int| 0 <= k < pre.len() implies (#[trigger] declaration_failure(pre[k].fields, pre[k].declaration, readings(k))) is None by {
                        assert(pre[k] == all[k]);
                        assert(recorded.contains_key(k));
                        assert(rec.contains_key(k));
                        assert(rec[k] == recorded[k]);
                    }
                    assert(v0 == all[i]);
                    assert(rec.contains_key(i));
                    lemma_no_failure(pre, readings);
                    assert(first_failure(all.take(i + 1), readings) == declaration_failure(all[i].fields, all[i].declaration, w));
                    lemma_first_failure_prefix(all, i + 1, readings);
                    assert(first_failure(enumeration.variants@, readings) == first_failure(enumeration.variants@, readings));
                }
                return Err(e);
            },
        };
        let ghost before = validated@;
        validated.push(v);
        proof {
            let prev = recorded;
            assert(v0 == all[i]);
            assert(validated@ == before.push(v));
            assert(declaration_failure(v0.fields, v0.declaration, w) is None);
            assert(variant_describes(v0, v, w));
            recorded = recorded.insert(i, w);
            assert forall|k: int| #[trigger] recorded.contains_key(k) implies sound_reading(recorded[k]) by {
                if k != i {
                    assert(prev.contains_key(k));
                }
            }
            lemma_extend_prefix(all, before, prev, i, v, w);
            i = i + 1;
        }
    }
    proof {
        assert(all.take(i) =~= all);
        let readings = readings_of(recorded);
        assert forall|j: int| #[trigger] sound_reading(readings(j)) by {
            if recorded.contains_key(j) {
                assert(sound_reading(recorded[j]));
            } else {
                assert forall|k: nat, t: Seq<char>| crate::text::word_text(t) implies #[trigger] readings(j)(k, t) == crate::text::word_ident(t) by {}
            }
        }
        assert forall|k: int| 0 <= k < all.len() implies (#[trigger] declaration_failure(all[k].fields, all[k].declaration, readings(k))) is None by {
            assert(recorded.contains_key(k));
        }
        lemma_no_failure(all, readings);
        assert forall|k: int| 0 <= k < all.len() implies variant_describes(all[k], #[trigger] validated@[k], readings(k)) by {
            assert(recorded.contains_key(k));
        }
        assert(first_failure(enumeration.variants@, readings) == first_failure(enumeration.variants@, readings));
    }
    let header = Header::new(inline, import, name, generics);
    Ok(Enumeration::new(header, validated))
}

impl Target {
    /// Construct validated semantics from one coherent parsed target.
    ///
    /// Capture heads that are not runs of ASCII word characters are read by
    /// `syn`, whose answer for them is not fixed here: the result is that of
    /// some sound reading of the heads.
    pub fn from_input(target: InputTarget) -> (r: Result<Target, Error>)
        ensures
            exists|readings: spec_fn(int) -> Reading|
                sound_readings(readings) && match #[trigger] target_failure(target, readings) {
                    Some(f) => r matches Err(e) && e@ == seq![f],
                    None => r matches Ok(v) && target_describes(target, v, readings),
                },
    {
        match target {
            InputTarget::Struct(structure) => {
                let ghost s0 = structure;
                let result = validate_structure(structure);
                let ghost w = choose|reading: Reading|
                    sound_reading(reading) && match #[trigger] declaration_failure(s0.fields, s0.declaration, reading) {
                        Some(f) => result matches Err(e) && e@ == seq![f],
                        None => result matches Ok(v) && v.header == header_of(s0.config, s0.name, s0.generics)
                            && v.fields == s0.fields && declaration_describes(
                            s0.fields,
                            s0.declaration,
                            (v.display, v.source, v.conversion),
                            reading,
                        ),
                    };
                let ghost readings = |i: int| w;
                assert(sound_readings(readings)) by {
                    assert forall|j: int| #[trigger] sound_reading(readings(j)) by {}
                }
                assert(target_failure(target, readings) == declaration_failure(s0.fields, s0.declaration, w));
                match result {
                    Ok(structure) => Ok(Target::Struct(Box::new(structure))),
                    Err(e) => Err(e),
                }
            },
            InputTarget::Enum(enumeration) => {
                let ghost e0 = enumeration;
                let result = validate_enumeration(enumeration);
                let ghost readings = choose|readings: spec_fn(int) -> Reading|
                    sound_readings(readings) && match #[trigger] first_failure(e0.variants@, readings) {
                        Some(f) => result matches Err(e) && e@ == seq![f],
                        None => result matches Ok(v) && v.header == header_of(e0.config, e0.name, e0.generics)
                            && v.variants@.len() == e0.variants@.len() && forall|i: int|
                            0 <= i < e0.variants@.len() ==> variant_describes(e0.variants@[i], #[trigger] v.variants@[i], readings(i)),
                    };
                assert(target_failure(target, readings) == first_failure(e0.variants@, readings));
                match result {
                    Ok(enumeration) => Ok(Target::Enum(enumeration)),
                    Err(e) => Err(e),
                }
            },
        }
    }
}

} // verus!

verus! {

/// The container classification keeps the field it classifies.
proof fn lemma_source_keeps_field(field: crate::input::field::Field)
    ensures
        Source::spec_new(field).spec_inner().field == field,
{
}

/// Validation keeps every field it names inside the declaration's own field
/// collection, converts only into the sole field, which is then also the
/// ordinary source, and forwards a transparent error through the same field
/// for display and source.
pub proof fn law_validated_fields(
    fields: Fields,
    declaration: InputDeclaration,
    out: (Display, ErrorSource, Option<Conversion>),
    reading: Reading,
)
    requires
        declaration_describes(fields, declaration, out, reading),
    ensures
        out.2 matches Some(c) ==> fields.spec_len() == 1 && fields.owns(c.field) && (out.1 matches ErrorSource::Field(s)
            && s.spec_inner().field == c.field),
        out.1 matches ErrorSource::Field(s) ==> fields.owns(s.spec_inner().field),
        out.1 matches ErrorSource::Transparent(t) ==> fields.owns(t.spec_inner().field) && out.0 == Display::Transparent(
            t.spec_inner().field,
        ) && out.2 is None,
        out.0 matches Display::Transparent(f) ==> out.1 matches ErrorSource::Transparent(t) && t.spec_inner().field == f,
{
    match declaration {
        InputDeclaration::Transparent(field) => {
            lemma_resolve_owns(fields, field);
            if let Ok(f) = fields.spec_resolve(field) {
                lemma_source_keeps_field(f);
            }
        },
        InputDeclaration::Ordinary(o) => {
            match o.source {
                InputSource::Absent => {},
                InputSource::Explicit(field) => {
                    lemma_resolve_owns(fields, field);
                    if let Ok(f) = fields.spec_resolve(field) {
                        lemma_source_keeps_field(f);
                    }
                },
                InputSource::From(from) => {
                    if fields.spec_len() == 1 {
                        lemma_source_keeps_field(fields.spec_at(0).unwrap());
                    }
                },
                InputSource::ExplicitFrom { field, from } => {
                    lemma_resolve_owns(fields, field);
                    if let Ok(f) = fields.spec_resolve(field) {
                        lemma_source_keeps_field(f);
                    }
                },
            }
        },
    }
}

} // verus!
