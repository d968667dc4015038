//! Resolved formatting semantics and field requirements.
//!
//! This module resolves source-level captures into owned field proofs and the
//! exact formatting traits and binding policy required by expansion. Once a
//! `Resolved` value exists, expansion performs no field lookup or validation.

use vstd::prelude::*;

use crate::ast::{is_diagnostic, Error, Ident, Span};
use crate::input::field::{Field, Fields};
use crate::input::format::{Argument, Format};
use crate::literal::{string_literal, string_literal_value};
use crate::text::{chars_of, is_digit, all_digits, digits_value, find, is_all_digits, is_word, parse_digits, parse_ident, push_chars, slice, string_from_chars, word_ident, word_text, text_eq, find_from, contains_char};

verus! {

/// A formatting trait required by one captured field.
#[derive(Clone, Copy, Debug, PartialEq, Eq, Structural)]
pub enum FormatTrait {
    /// `Display` formatting.
    Display,
    /// `Debug` formatting.
    Debug,
    /// Lower hexadecimal formatting.
    LowerHex,
    /// Upper hexadecimal formatting.
    UpperHex,
    /// Octal formatting.
    Octal,
    /// Binary formatting.
    Binary,
    /// Lower exponential formatting.
    LowerExp,
    /// Upper exponential formatting.
    UpperExp,
    /// Pointer formatting.
    Pointer,
}

/// The formatting trait selected by the last character of a format
/// specifier such as `:?` or `:#x`.
pub open spec fn spec_format_trait(spec: Seq<char>) -> FormatTrait {
    if spec.len() == 0 {
        FormatTrait::Display
    } else {
        let c = spec.last();
        if c == '?' {
            FormatTrait::Debug
        } else if c == 'o' {
            FormatTrait::Octal
        } else if c == 'x' {
            FormatTrait::LowerHex
        } else if c == 'X' {
            FormatTrait::UpperHex
        } else if c == 'p' {
            FormatTrait::Pointer
        } else if c == 'b' {
            FormatTrait::Binary
        } else if c == 'e' {
            FormatTrait::LowerExp
        } else if c == 'E' {
            FormatTrait::UpperExp
        } else {
            FormatTrait::Display
        }
    }
}

/// One resolved field use in a format string.
#[derive(Debug)]
pub struct FormatUse {
    /// Resolved captured field.
    pub field: Field,
    /// Formatting trait required by the capture.
    pub format_trait: FormatTrait,
}

impl FormatUse {
    /// Return the referenced field.
    pub fn field(&self) -> (r: &Field)
        ensures
            *r == self.field,
    {
        &self.field
    }

    /// Return the formatting trait required by this use.
    pub fn format_trait(&self) -> (r: FormatTrait)
        ensures
            r == self.format_trait,
    {
        self.format_trait
    }
}

/// Unique selected fields in first use order.
#[derive(Debug)]
pub struct SelectedFields(pub Vec<Field>);

impl SelectedFields {
    /// Return selected identities in first use order.
    pub fn as_slice(&self) -> (r: &[Field])
        ensures
            r@ == self.0@,
    {
        self.0.as_slice()
    }
}

/// Field binding policy established during format resolution.
#[derive(Debug)]
pub enum BindingRequirement {
    /// Bind only fields proven necessary by format captures.
    Selected(SelectedFields),
    /// Bind every declared field because explicit expressions may reference
    /// any field.
    All,
}

/// A string literal that generated code writes: its value, the text of the
/// literal token that spells it, and the location of the source literal.
#[derive(Debug)]
pub struct OutputLiteral {
    /// The value of the literal.
    pub value: String,
    /// The literal token as written in generated code.
    pub token: String,
    /// Location of the source literal.
    pub span: Span,
}

/// Dynamic formatting after capture resolution.
#[derive(Debug)]
pub struct DynamicFormat {
    /// Rewritten format string consumed by generated `write!` calls.
    pub literal: OutputLiteral,
    /// Explicit Rust format arguments supplied by the user.
    pub arguments: Vec<Argument>,
    /// Formatting requirements introduced by captured fields.
    pub uses: Vec<FormatUse>,
    /// Fields that generated code must bind before formatting.
    pub bindings: BindingRequirement,
}

/// A validated format whose field references have been resolved.
#[derive(Debug)]
pub enum Resolved {
    /// A literal that can be written without Rust formatting machinery.
    Static(OutputLiteral),
    /// Dynamic formatting with resolved field and binding requirements.
    Dynamic(DynamicFormat),
}

/// Semantic class of one format capture head.
pub enum CaptureHead {
    /// Empty capture resolved by Rust formatting itself.
    Empty,
    /// Positional tuple field capture.
    Positional,
    /// Name owned by an explicit format argument.
    Explicit,
    /// Candidate named field capture.
    Named,
}

/// Semantic class of one dynamic width or precision reference.
pub enum DynamicReference {
    /// Positional tuple field reference.
    Positional,
    /// Candidate named field reference.
    Named,
}

/// Whether `names` holds `text`.
pub open spec fn names_contain(names: Seq<String>, text: Seq<char>) -> bool {
    exists|i: int| 0 <= i < names.len() && names[i]@ == text
}

impl CaptureHead {
    /// The class of the capture head `argument`.
    pub open spec fn spec_classify(argument: Seq<char>, explicit_names: Seq<String>) -> CaptureHead {
        if argument.len() == 0 {
            CaptureHead::Empty
        } else if all_digits(argument) {
            CaptureHead::Positional
        } else if names_contain(explicit_names, argument) {
            CaptureHead::Explicit
        } else {
            CaptureHead::Named
        }
    }

    /// Classify a capture head before field resolution.
    pub fn classify(argument: &Vec<char>, explicit_names: &Vec<String>) -> (r: CaptureHead)
        ensures
            r == Self::spec_classify(argument@, explicit_names@),
    {
        let empty = argument.len() == 0;
        let positional = is_all_digits(argument);
        let text = string_from_chars(argument);
        let mut explicit = false;
        let mut i: usize = 0;
        while i < explicit_names.len()
            invariant
                i <= explicit_names@.len(),
                text@ == argument@,
                explicit == (exists|j: int| 0 <= j < i && explicit_names@[j]@ == argument@),
            decreases explicit_names.len() - i,
        {
            if text_eq(&explicit_names[i], &text) {
                explicit = true;
            }
            i = i + 1;
        }
        if empty {
            CaptureHead::Empty
        } else if positional {
            CaptureHead::Positional
        } else if explicit {
            CaptureHead::Explicit
        } else {
            CaptureHead::Named
        }
    }
}

impl DynamicReference {
    /// The class of the dynamic reference `token`.
    pub open spec fn spec_classify(token: Seq<char>) -> DynamicReference {
        if all_digits(token) {
            DynamicReference::Positional
        } else {
            DynamicReference::Named
        }
    }

    /// Classify one dynamic format reference.
    pub fn classify(token: &Vec<char>) -> (r: DynamicReference)
        ensures
            r == Self::spec_classify(token@),
    {
        if is_all_digits(token) {
            DynamicReference::Positional
        } else {
            DynamicReference::Named
        }
    }
}

/// Record `field` unless an equal field is already selected.
pub open spec fn push_unique(selected: Seq<Field>, field: Field) -> Seq<Field> {
    if selected.contains(field) {
        selected
    } else {
        selected.push(field)
    }
}

/// Whether `i` is the first position in `s` that is not a word character.
pub open spec fn is_word_end(s: Seq<char>, i: int) -> bool {
    &&& 0 <= i <= s.len()
    &&& forall|j: int| 0 <= j < i ==> is_word(#[trigger] s[j])
    &&& (i < s.len() ==> !is_word(s[i]))
}

/// The length of the run of word characters that starts `s`.
pub open spec fn word_run(s: Seq<char>) -> int {
    choose|i: int| is_word_end(s, i)
}

/// The run of word characters is well defined.
pub proof fn lemma_word_run(s: Seq<char>)
    ensures
        is_word_end(s, word_run(s)),
        s.len() > 0 && is_word(s[0]) ==> word_run(s) >= 1,
{
    let k = if exists|i: int| 0 <= i < s.len() && !is_word(s[i]) {
        choose|i: int| 0 <= i < s.len() && !is_word(s[i]) && forall|j: int| 0 <= j < i ==> is_word(#[trigger] s[j])
    } else {
        s.len() as int
    };
    if exists|i: int| 0 <= i < s.len() && !is_word(s[i]) {
        lemma_first_non_word(s);
    }
    assert(is_word_end(s, k));
    let w = word_run(s);
    assert(is_word_end(s, w));
}

/// A first non-word position exists whenever a non-word character does.
proof fn lemma_first_non_word(s: Seq<char>)
    requires
        exists|i: int| 0 <= i < s.len() && !is_word(s[i]),
    ensures
        exists|i: int| 0 <= i < s.len() && !is_word(s[i]) && forall|j: int| 0 <= j < i ==> is_word(#[trigger] s[j]),
    decreases s.len(),
{
    if !is_word(s[0]) {
        assert(forall|j: int| 0 <= j < 0 ==> is_word(#[trigger] s[j]));
    } else {
        let t = s.drop_first();
        let i = choose|i: int| 0 <= i < s.len() && !is_word(s[i]);
        assert(t[i - 1] == s[i]);
        lemma_first_non_word(t);
        let k = choose|k: int| 0 <= k < t.len() && !is_word(t[k]) && forall|j: int| 0 <= j < k ==> is_word(#[trigger] t[j]);
        assert(t[k] == s[k + 1]);
        assert forall|j: int| 0 <= j < k + 1 implies is_word(#[trigger] s[j]) by {
            if j > 0 {
                assert(s[j] == t[j - 1]);
            }
        }
    }
}

} // verus!

verus! {

/// The outcome of one resolution step: the written characters and the
/// selected fields, or the diagnostic message.
pub type DynamicOutcome = Result<(Seq<char>, Seq<Field>), Seq<char>>;

/// Prefix the written characters of `r` with `prefix`.
pub open spec fn prepend(prefix: Seq<char>, r: DynamicOutcome) -> DynamicOutcome {
    match r {
        Ok((out, selected)) => Ok((prefix + out, selected)),
        Err(m) => Err(m),
    }
}

/// Prefixing twice is prefixing once with both.
pub proof fn lemma_prepend_twice(a: Seq<char>, b: Seq<char>, r: DynamicOutcome)
    ensures
        prepend(a, prepend(b, r)) == prepend(a + b, r),
{
    if let Ok((out, s)) = r {
        assert(a + (b + out) =~= (a + b) + out);
    }
}

/// Resolution of the field references in a dynamic width or precision
/// specifier such as `:>width$` or `:.1$`.
///
/// Word tokens (ASCII letters, digits and `_`) followed by `$` refer to a
/// field: all-digit tokens to the tuple field at that position, which is then
/// written with a leading `_`, and other tokens to the named field of that
/// identifier. Referenced fields are selected; references that name no field
/// are left to Rust formatting. Every other character is copied unchanged.
pub open spec fn spec_dynamic(fields: Fields, s: Seq<char>, selected: Seq<Field>) -> DynamicOutcome
    decreases s.len(),
{
    if s.len() == 0 {
        Ok((Seq::empty(), selected))
    } else if !is_word(s[0]) {
        prepend(seq![s[0]], spec_dynamic(fields, s.drop_first(), selected))
    } else {
        proof {
            lemma_word_run(s);
        }
        let n = word_run(s);
        let token = s.take(n);
        let after = s.skip(n);
        if !(after.len() > 0 && after[0] == '$') {
            prepend(token, spec_dynamic(fields, after, selected))
        } else {
            match DynamicReference::spec_classify(token) {
                DynamicReference::Positional => if digits_value(token) > usize::MAX {
                    Err("invalid dynamic format field index"@)
                } else {
                    match fields.spec_tuple_capture(digits_value(token) as int) {
                        Some(f) => prepend(seq!['_'] + token, spec_dynamic(fields, after, push_unique(selected, f))),
                        None => prepend(token, spec_dynamic(fields, after, selected)),
                    }
                },
                DynamicReference::Named => {
                    let next = match word_ident(token) {
                        Some(t) => match fields.spec_lookup_name(t) {
                            Ok(f) => push_unique(selected, f),
                            Err(_) => selected,
                        },
                        None => selected,
                    };
                    prepend(token, spec_dynamic(fields, after, next))
                },
            }
        }
    }
}

/// Word-run ends are unique.
pub proof fn lemma_word_end_unique(s: Seq<char>, i: int, j: int)
    requires
        is_word_end(s, i),
        is_word_end(s, j),
    ensures
        i == j,
{
    if i < j {
        assert(is_word(s[i]));
    } else if j < i {
        assert(is_word(s[j]));
    }
}

/// Whether every selected field is a proof of `fields`.
pub open spec fn all_owned(fields: Fields, selected: Seq<Field>) -> bool {
    forall|i: int| 0 <= i < selected.len() ==> fields.owns(#[trigger] selected[i])
}

/// Record `field` once while preserving first-use order.
fn push_field(fields: &Fields, selected: &mut Vec<Field>, field: Field)
    requires
        fields.owns(field),
        all_owned(*fields, old(selected)@),
    ensures
        final(selected)@ == push_unique(old(selected)@, field),
        all_owned(*fields, final(selected)@),
{
    let mut i: usize = 0;
    while i < selected.len()
        invariant
            i <= selected@.len(),
            selected@ == old(selected)@,
            fields.owns(field),
            all_owned(*fields, selected@),
            forall|j: int| 0 <= j < i ==> selected@[j].index != field.index,
        decreases selected.len() - i,
    {
        if selected[i].index == field.index {
            proof {
                assert(fields.owns(selected@[i as int]));
                assert(selected@[i as int] == field);
                assert(selected@.contains(field));
            }
            return;
        }
        i = i + 1;
    }
    proof {
        if selected@.contains(field) {
            let k = choose|k: int| 0 <= k < selected@.len() && selected@[k] == field;
            assert(selected@[k].index == field.index);
        }
    }
    selected.push(field);
}

/// Whether `c` is an ASCII letter, digit or underscore.
fn is_word_char(c: char) -> (r: bool)
    ensures
        r == is_word(c),
{
    ('0' <= c && c <= '9') || ('a' <= c && c <= 'z') || ('A' <= c && c <= 'Z') || c == '_'
}

/// Resolve field references used by dynamic width and precision specifiers.
fn resolve_dynamic_spec(spec: &Vec<char>, fields: &Fields, selected: &mut Vec<Field>, span: Span) -> (r: Result<Vec<char>, Error>)
    requires
        all_owned(*fields, old(selected)@),
    ensures
        all_owned(*fields, final(selected)@),
        match spec_dynamic(*fields, spec@, old(selected)@) {
            Ok((o, s)) => r matches Ok(out) && out@ == o && final(selected)@ == s,
            Err(m) => r matches Err(e) && e@.len() == 1 && is_diagnostic(e@[0], span, m),
        },
{
    let mut out: Vec<char> = Vec::new();
    let mut index: usize = 0;
    let ghost sel0 = selected@;
    assert(spec@.skip(0) =~= spec@);
    assert(out@ + Seq::<char>::empty() =~= Seq::<char>::empty());
    proof {
        lemma_prepend_empty(spec_dynamic(*fields, spec@, sel0));
    }
    while index < spec.len()
        invariant
            index <= spec@.len(),
            all_owned(*fields, selected@),
            sel0 == old(selected)@,
            spec_dynamic(*fields, spec@, sel0) == prepend(out@, spec_dynamic(*fields, spec@.skip(index as int), selected@)),
        decreases spec.len() - index,
    {
        let ghost s = spec@.skip(index as int);
        let ghost out0 = out@;
        let c = spec[index];
        if !is_word_char(c) {
            out.push(c);
            index = index + 1;
            proof {
                assert(s.drop_first() =~= spec@.skip(index as int));
                assert(out@ =~= out0 + seq![c]);
                lemma_prepend_twice(out0, seq![c], spec_dynamic(*fields, s.drop_first(), selected@));
            }
        } else {
            let start = index;
            while index < spec.len() && is_word_char(spec[index])
                invariant
                    start < index || start == index,
                    index <= spec@.len(),
                    s == spec@.skip(start as int),
                    forall|j: int| start <= j < index ==> is_word(#[trigger] spec@[j]),
                decreases spec.len() - index,
            {
                index = index + 1;
            }
            let ghost n = index - start;
            proof {
                lemma_word_run(s);
                assert forall|j: int| 0 <= j < n implies is_word(#[trigger] s[j]) by {
                    assert(s[j] == spec@[start + j]);
                }
                if n < s.len() {
                    assert(s[n] == spec@[index as int]);
                }
                assert(is_word_end(s, n));
                lemma_word_end_unique(s, n, word_run(s));
                assert(s.skip(n) =~= spec@.skip(index as int));
            }
            let token = slice(spec, start, index);
            assert(token@ =~= s.take(n));
            let dynamic = index < spec.len() && spec[index] == '$';
            if !dynamic {
                push_chars(&mut out, &token);
                proof {
                    lemma_prepend_twice(out0, token@, spec_dynamic(*fields, spec@.skip(index as int), selected@));
                }
            } else {
                let ghost sel_before = selected@;
                match DynamicReference::classify(&token) {
                    DynamicReference::Positional => {
                        match parse_digits(&token) {
                            None => {
                                proof {
                                    assert(s.len() > 0 && s[0] == c);
                                    assert(spec_dynamic(*fields, s, selected@) == Err::<(Seq<char>, Seq<Field>), Seq<char>>("invalid dynamic format field index"@));
                                }
                                return Err(Error::new(span, "invalid dynamic format field index"));
                            },
                            Some(field_index) => {
                                match fields.tuple_capture(field_index) {
                                    Some(field) => {
                                        push_field(fields, selected, field);
                                        out.push('_');
                                        push_chars(&mut out, &token);
                                        proof {
                                            assert(out@ =~= out0 + (seq!['_'] + token@));
                                            lemma_prepend_twice(out0, seq!['_'] + token@, spec_dynamic(*fields, spec@.skip(index as int), selected@));
                                        }
                                    },
                                    None => {
                                        push_chars(&mut out, &token);
                                        proof {
                                            lemma_prepend_twice(out0, token@, spec_dynamic(*fields, spec@.skip(index as int), selected@));
                                        }
                                    },
                                }
                            },
                        }
                    },
                    DynamicReference::Named => {
                        let text = string_from_chars(&token);
                        proof {
                            assert forall|j: int| 0 <= j < token@.len() implies is_word(#[trigger] token@[j]) by {
                                assert(token@[j] == s[j]);
                            }
                            assert(word_text(token@));
                        }
                        match parse_ident(text.as_str()) {
                            Some(t) => {
                                let ident = Ident { text: t, span };
                                proof {
                                    fields.lemma_lookup_owns(ident.text@);
                                }
                                match fields.named(&ident) {
                                    Ok(field) => {
                                        push_field(fields, selected, field);
                                    },
                                    Err(_) => {},
                                }
                            },
                            None => {},
                        }
                        push_chars(&mut out, &token);
                        proof {
                            lemma_prepend_twice(out0, token@, spec_dynamic(*fields, spec@.skip(index as int), selected@));
                        }
                    },
                }
            }
        }
    }
    proof {
        assert(spec@.skip(index as int) =~= Seq::<char>::empty());
        assert(out@ + Seq::<char>::empty() =~= out@);
    }
    Ok(out)
}

/// Prefixing with nothing changes nothing.
pub proof fn lemma_prepend_empty(r: DynamicOutcome)
    ensures
        prepend(Seq::empty(), r) == r,
{
    if let Ok((out, s)) = r {
        assert(Seq::<char>::empty() + out =~= out);
    }
}

} // verus!

verus! {

/// The field that a capture head selects, if any, or the diagnostic message.
///
/// Empty heads and heads owned by an explicit named argument select nothing.
/// All-digit heads select the tuple field at that position when there is one.
/// Other heads are read as an identifier (`answer` is what that reading
/// gave), which must name a declared field.
pub open spec fn spec_capture_field(
    fields: Fields,
    argument: Seq<char>,
    explicit_names: Seq<String>,
    answer: Option<Seq<char>>,
) -> Result<Option<Field>, Seq<char>> {
    match CaptureHead::spec_classify(argument, explicit_names) {
        CaptureHead::Empty => Ok(None),
        CaptureHead::Explicit => Ok(None),
        CaptureHead::Positional => if digits_value(argument) > usize::MAX {
            Err("invalid positional format capture"@)
        } else {
            Ok(fields.spec_tuple_capture(digits_value(argument) as int))
        },
        CaptureHead::Named => match answer {
            None => Err("invalid named format capture"@),
            Some(t) => match fields.spec_lookup_name(t) {
                Ok(f) => Ok(Some(f)),
                Err(m) => Err(m),
            },
        },
    }
}

/// Interpret a capture head as a field only when explicit arguments do not
/// own it. Also gives what reading the head as an identifier gave.
fn capture_field(argument: &Vec<char>, fields: &Fields, explicit_names: &Vec<String>, span: Span) -> (r: (
    Result<Option<Field>, Error>,
    Ghost<Option<Seq<char>>>,
))
    ensures
        word_text(argument@) ==> r.1@ == word_ident(argument@),
        match spec_capture_field(*fields, argument@, explicit_names@, r.1@) {
            Ok(f) => r.0 == Ok::<Option<Field>, Error>(f),
            Err(m) => r.0 matches Err(e) && e@.len() == 1 && is_diagnostic(e@[0], span, m),
        },
        r.0 matches Ok(Some(f)) ==> fields.owns(f),
{
    let ghost unread = word_ident(argument@);
    match CaptureHead::classify(argument, explicit_names) {
        CaptureHead::Empty => (Ok(None), Ghost(unread)),
        CaptureHead::Explicit => (Ok(None), Ghost(unread)),
        CaptureHead::Positional => match parse_digits(argument) {
            None => (Err(Error::new(span, "invalid positional format capture")), Ghost(unread)),
            Some(index) => (Ok(fields.tuple_capture(index)), Ghost(unread)),
        },
        CaptureHead::Named => {
            let text = string_from_chars(argument);
            let read = parse_ident(text.as_str());
            let ghost answer = if read is Some {
                Some(read->Some_0@)
            } else {
                None::<Seq<char>>
            };
            match read {
                None => (Err(Error::new(span, "invalid named format capture")), Ghost(answer)),
                Some(t) => {
                    let ident = Ident { text: t, span };
                    proof {
                        fields.lemma_lookup_owns(ident.text@);
                    }
                    match fields.named(&ident) {
                        Ok(f) => (Ok(Some(f)), Ghost(answer)),
                        Err(e) => (Err(e), Ghost(answer)),
                    }
                },
            }
        },
    }
}

/// The outcome of resolving one capture or a whole literal: the written
/// characters, the format uses and the selected fields, or the message.
pub type CaptureOutcome = Result<(Seq<char>, Seq<FormatUse>, Seq<Field>), Seq<char>>;

/// Prefix the written characters of `r` with `prefix`.
pub open spec fn prepend_capture(prefix: Seq<char>, r: CaptureOutcome) -> CaptureOutcome {
    match r {
        Ok((out, uses, selected)) => Ok((prefix + out, uses, selected)),
        Err(m) => Err(m),
    }
}

/// Prefixing twice is prefixing once with both.
pub proof fn lemma_prepend_capture_twice(a: Seq<char>, b: Seq<char>, r: CaptureOutcome)
    ensures
        prepend_capture(a, prepend_capture(b, r)) == prepend_capture(a + b, r),
{
    if let Ok((out, u, s)) = r {
        assert(a + (b + out) =~= (a + b) + out);
    }
}

/// Resolution of one `{...}` capture with contents `inside`.
///
/// The head before the first `:` selects a field as `spec_capture_field`
/// says; a numeric head that selects a field is refused when explicit
/// positional arguments exist. A selected tuple field is written with a
/// leading `_` (the generated local name), recorded as a use with the trait
/// of the specifier, and selected. The specifier after the head is resolved
/// by `spec_dynamic`.
pub open spec fn spec_capture(
    fields: Fields,
    inside: Seq<char>,
    explicit_names: Seq<String>,
    has_positional: bool,
    uses: Seq<FormatUse>,
    selected: Seq<Field>,
    answer: Option<Seq<char>>,
) -> CaptureOutcome {
    let argument_end = match find(inside, ':') {
        Some(i) => i,
        None => inside.len() as int,
    };
    let argument = inside.take(argument_end);
    let spec = inside.skip(argument_end);
    match spec_capture_field(fields, argument, explicit_names, answer) {
        Err(m) => Err(m),
        Ok(None) => match spec_dynamic(fields, spec, selected) {
            Ok((out, s)) => Ok((argument + out, uses, s)),
            Err(m) => Err(m),
        },
        Ok(Some(f)) => if argument.len() > 0 && is_digit(argument[0]) && has_positional {
            Err("ambiguous numeric field capture with explicit positional format arguments"@)
        } else {
            let head = if f.name is Some { argument } else { seq!['_'] + argument };
            match spec_dynamic(fields, spec, push_unique(selected, f)) {
                Ok((out, s)) => Ok((head + out, uses.push(FormatUse { field: f, format_trait: spec_format_trait(spec) }), s)),
                Err(m) => Err(m),
            }
        },
    }
}

/// Classify the Rust formatting trait required by one format specifier.
fn format_trait(spec: &Vec<char>) -> (r: FormatTrait)
    ensures
        r == spec_format_trait(spec@),
{
    if spec.len() == 0 {
        return FormatTrait::Display;
    }
    let c = spec[spec.len() - 1];
    if c == '?' {
        FormatTrait::Debug
    } else if c == 'o' {
        FormatTrait::Octal
    } else if c == 'x' {
        FormatTrait::LowerHex
    } else if c == 'X' {
        FormatTrait::UpperHex
    } else if c == 'p' {
        FormatTrait::Pointer
    } else if c == 'b' {
        FormatTrait::Binary
    } else if c == 'e' {
        FormatTrait::LowerExp
    } else if c == 'E' {
        FormatTrait::UpperExp
    } else {
        FormatTrait::Display
    }
}

/// The head of a capture: the text before its first `:`.
pub open spec fn capture_head(inside: Seq<char>) -> Seq<char> {
    match find(inside, ':') {
        Some(i) => inside.take(i),
        None => inside,
    }
}

/// Resolve one `{...}` capture and rewrite tuple fields to generated local
/// names.
fn resolve_capture(
    inside: &Vec<char>,
    fields: &Fields,
    explicit_names: &Vec<String>,
    has_positional: bool,
    uses: &mut Vec<FormatUse>,
    selected: &mut Vec<Field>,
    span: Span,
) -> (r: (Result<Vec<char>, Error>, Ghost<Option<Seq<char>>>))
    requires
        all_owned(*fields, old(selected)@),
    ensures
        all_owned(*fields, final(selected)@),
        word_text(capture_head(inside@)) ==> r.1@ == word_ident(capture_head(inside@)),
        match spec_capture(*fields, inside@, explicit_names@, has_positional, old(uses)@, old(selected)@, r.1@) {
            Ok((o, u, s)) => r.0 matches Ok(out) && out@ == o && final(uses)@ == u && final(selected)@ == s,
            Err(m) => r.0 matches Err(e) && e@.len() == 1 && is_diagnostic(e@[0], span, m),
        },
{
    let argument_end = match find_from(inside, 0, ':') {
        Some(i) => i,
        None => inside.len(),
    };
    proof {
        assert(inside@.skip(0) =~= inside@);
        crate::text::lemma_find(inside@, ':');
    }
    let argument = slice(inside, 0, argument_end);
    let spec = slice(inside, argument_end, inside.len());
    assert(argument@ =~= inside@.take(argument_end as int));
    assert(spec@ =~= inside@.skip(argument_end as int));
    assert(argument@ == capture_head(inside@));
    let (field, answer) = capture_field(&argument, fields, explicit_names, span);
    let field = match field {
        Ok(f) => f,
        Err(e) => return (Err(e), answer),
    };
    let ambiguous = argument.len() > 0 && '0' <= argument[0] && argument[0] <= '9' && has_positional;
    let mut rewritten: Vec<char> = Vec::new();
    match field {
        Some(field) => {
            if ambiguous {
                return (Err(Error::new(span, "ambiguous numeric field capture with explicit positional format arguments")), answer);
            }
            let named = field.name.is_some();
            let trait_ = format_trait(&spec);
            let ghost f = field;
            push_field(fields, selected, field.duplicate());
            uses.push(FormatUse { field, format_trait: trait_ });
            if !named {
                rewritten.push('_');
            }
            push_chars(&mut rewritten, &argument);
            let ghost head = rewritten@;
            assert(head =~= (if f.name is Some { argument@ } else { seq!['_'] + argument@ }));
            match resolve_dynamic_spec(&spec, fields, selected, span) {
                Ok(out) => {
                    push_chars(&mut rewritten, &out);
                    (Ok(rewritten), answer)
                },
                Err(e) => (Err(e), answer),
            }
        },
        None => {
            push_chars(&mut rewritten, &argument);
            match resolve_dynamic_spec(&spec, fields, selected, span) {
                Ok(out) => {
                    push_chars(&mut rewritten, &out);
                    (Ok(rewritten), answer)
                },
                Err(e) => (Err(e), answer),
            }
        },
    }
}

} // verus!

verus! {

/// Resolution of a whole format literal `read`, continuing from the uses and
/// selected fields gathered so far.
///
/// Text outside captures is copied; `{{` is copied as an escape; a `{`
/// without a later `}` ends resolution and the remaining text is copied;
/// every other `{...}` is resolved by `spec_capture` and written back inside
/// braces. `reading` gives what reading a capture head as an identifier
/// gave, by the length of the text left at that capture and the head.
pub open spec fn spec_resolve_text(
    fields: Fields,
    read: Seq<char>,
    explicit_names: Seq<String>,
    has_positional: bool,
    uses: Seq<FormatUse>,
    selected: Seq<Field>,
    reading: spec_fn(nat, Seq<char>) -> Option<Seq<char>>,
) -> CaptureOutcome
    decreases read.len(),
{
    match find(read, '{') {
        None => Ok((read, uses, selected)),
        Some(open) => {
            proof {
                crate::text::lemma_find(read, '{');
            }
            let prefix = read.take(open);
            let rest = read.skip(open);
            if rest.len() >= 2 && rest[1] == '{' {
                prepend_capture(
                    prefix + seq!['{', '{'],
                    spec_resolve_text(fields, rest.skip(2), explicit_names, has_positional, uses, selected, reading),
                )
            } else {
                let after = rest.skip(1);
                match find(after, '}') {
                    None => Ok((read, uses, selected)),
                    Some(close) => {
                        proof {
                            crate::text::lemma_find(after, '}');
                        }
                        let inside = after.take(close);
                        let tail = after.skip(close + 1);
                        match spec_capture(fields, inside, explicit_names, has_positional, uses, selected, reading(read.len(), capture_head(inside))) {
                            Err(m) => Err(m),
                            Ok((rewritten, next_uses, next_selected)) => prepend_capture(
                                prefix + seq!['{'] + rewritten + seq!['}'],
                                spec_resolve_text(fields, tail, explicit_names, has_positional, next_uses, next_selected, reading),
                            ),
                        }
                    },
                }
            }
        },
    }
}

/// The names of the explicitly named arguments, in source order.
pub open spec fn spec_explicit_names(arguments: Seq<Argument>) -> Seq<String>
    decreases arguments.len(),
{
    if arguments.len() == 0 {
        Seq::empty()
    } else {
        let rest = spec_explicit_names(arguments.drop_last());
        match arguments.last().name {
            Some(name) => rest.push(name.text),
            None => rest,
        }
    }
}

/// Whether some explicit argument is positional.
pub open spec fn spec_has_positional(arguments: Seq<Argument>) -> bool {
    exists|i: int| 0 <= i < arguments.len() && arguments[i].name is None
}

/// Whether a format can be written as a plain string: no explicit arguments
/// and no brace in its literal.
pub open spec fn spec_is_static(format: Format) -> bool {
    &&& format.arguments@.len() == 0
    &&& !contains_char(format.literal.value@, '{')
    &&& !contains_char(format.literal.value@, '}')
}

/// The resolution of a whole source format against `fields`, with capture
/// heads read as identifiers by `reading`.
pub open spec fn spec_resolution(format: Format, fields: Fields, reading: spec_fn(nat, Seq<char>) -> Option<Seq<char>>) -> CaptureOutcome {
    spec_resolve_text(
        fields,
        format.literal.value@,
        spec_explicit_names(format.arguments@),
        spec_has_positional(format.arguments@),
        Seq::empty(),
        Seq::empty(),
        reading,
    )
}

/// What reading capture heads as identifiers gave: by the length of the text
/// left at the capture, and the head.
pub type Reading = spec_fn(nat, Seq<char>) -> Option<Seq<char>>;

/// Whether `reading` reads every run of ASCII word characters as `syn`
/// does, wherever it stands; other heads may be read either way.
pub open spec fn sound_reading(reading: spec_fn(nat, Seq<char>) -> Option<Seq<char>>) -> bool {
    forall|k: nat, t: Seq<char>| word_text(t) ==> #[trigger] reading(k, t) == word_ident(t)
}

/// The reading that reads word heads as `syn` does and any other head as
/// nothing.
pub open spec fn word_reading() -> Reading {
    |k: nat, t: Seq<char>| word_ident(t)
}

/// Whether `reading` gives, for each recorded position, the recorded answer
/// for the recorded head.
pub open spec fn agrees(
    reading: spec_fn(nat, Seq<char>) -> Option<Seq<char>>,
    answers: Map<nat, (Seq<char>, Option<Seq<char>>)>,
) -> bool {
    forall|k: nat| #[trigger] answers.contains_key(k) ==> reading(k, answers[k].0) == answers[k].1
}

/// Recorded answers sit at positions above `bound`, and word heads were read
/// as `syn` reads them.
pub open spec fn answers_wf(answers: Map<nat, (Seq<char>, Option<Seq<char>>)>, bound: int) -> bool {
    forall|k: nat|
        #[trigger] answers.contains_key(k) ==> k > bound && (word_text(answers[k].0) ==> answers[k].1 == word_ident(
            answers[k].0,
        ))
}

/// The reading that gives the recorded answers and reads every other head
/// as nothing.
pub open spec fn recorded_reading(answers: Map<nat, (Seq<char>, Option<Seq<char>>)>) -> spec_fn(nat, Seq<char>) -> Option<
    Seq<char>,
> {
    |k: nat, t: Seq<char>|
        if word_text(t) {
            word_ident(t)
        } else if answers.contains_key(k) && answers[k].0 == t {
            answers[k].1
        } else {
            None
        }
}

impl Resolved {
    /// Whether this value is the resolved form of `format` with rewritten
    /// literal `text`, format uses `uses` and selected fields `selected`.
    pub open spec fn describes(self, format: Format, text: Seq<char>, uses: Seq<FormatUse>, selected: Seq<Field>) -> bool {
        if spec_is_static(format) {
            self matches Resolved::Static(l) && l.value@ == text && l.span == format.literal.span
                && string_literal_value(l.token@) == Some(l.value@)
        } else {
            &&& self matches Resolved::Dynamic(d)
            &&& d.literal.value@ == text
            &&& string_literal_value(d.literal.token@) == Some(d.literal.value@)
            &&& d.literal.span == format.literal.span
            &&& d.arguments@ == format.arguments@
            &&& d.uses@ == uses
            &&& if format.arguments@.len() == 0 {
                d.bindings matches BindingRequirement::Selected(s) && s.0@ == selected
            } else {
                d.bindings is All
            }
        }
    }

    /// Collect names reserved by explicit user-supplied format arguments.
    fn explicit_names(arguments: &Vec<Argument>) -> (r: Vec<String>)
        ensures
            r@ == spec_explicit_names(arguments@),
    {
        let mut names: Vec<String> = Vec::new();
        let mut i: usize = 0;
        while i < arguments.len()
            invariant
                i <= arguments@.len(),
                names@ == spec_explicit_names(arguments@.take(i as int)),
            decreases arguments.len() - i,
        {
            assert(arguments@.take(i + 1).drop_last() =~= arguments@.take(i as int));
            match &arguments[i].name {
                Some(name) => names.push(name.text.clone()),
                None => {},
            }
            i = i + 1;
        }
        assert(arguments@.take(arguments@.len() as int) =~= arguments@);
        names
    }

    /// Whether some explicit argument is positional.
    fn has_positional(arguments: &Vec<Argument>) -> (r: bool)
        ensures
            r == spec_has_positional(arguments@),
    {
        let mut i: usize = 0;
        while i < arguments.len()
            invariant
                i <= arguments@.len(),
                forall|j: int| 0 <= j < i ==> arguments@[j].name is Some,
            decreases arguments.len() - i,
        {
            if arguments[i].name.is_none() {
                return true;
            }
            i = i + 1;
        }
        false
    }

    /// Resolve every field dependent part of one source format.
    ///
    /// Capture heads that are not runs of ASCII word characters are read as
    /// identifiers by `syn`, whose answer for them is not fixed here: the
    /// result is the resolution under some sound reading of the heads.
    pub fn resolve(raw: Format, fields: &Fields) -> (r: Result<Resolved, Error>)
        ensures
            exists|reading: spec_fn(nat, Seq<char>) -> Option<Seq<char>>|
                sound_reading(reading) && match #[trigger] spec_resolution(raw, *fields, reading) {
                    Ok((text, uses, selected)) => r matches Ok(res) && res.describes(raw, text, uses, selected),
                    Err(m) => r matches Err(e) && e@.len() == 1 && is_diagnostic(e@[0], raw.literal.span, m),
                },
    {
        let ghost raw0 = raw;
        let (literal, arguments) = raw.parts();
        let explicit_names = Self::explicit_names(&arguments);
        let has_positional = Self::has_positional(&arguments);
        let value = chars_of(literal.value.as_str());
        let span = literal.span;
        let mut output: Vec<char> = Vec::new();
        let mut uses: Vec<FormatUse> = Vec::new();
        let mut selected: Vec<Field> = Vec::new();
        let mut pos: usize = 0;
        let ghost names = explicit_names@;
        let mut answers: Ghost<Map<nat, (Seq<char>, Option<Seq<char>>)>> = Ghost(Map::empty());
        proof {
            assert(value@.skip(0) =~= value@);
            assert forall|p: spec_fn(nat, Seq<char>) -> Option<Seq<char>>| sound_reading(p) && agrees(p, answers@) implies
                spec_resolution(raw0, *fields, p) == prepend_capture(output@, spec_resolve_text(*fields, value@.skip(pos as int), names, has_positional, uses@, selected@, p)) by {
                lemma_prepend_capture_empty(spec_resolution(raw0, *fields, p));
            }
        }
        loop
            invariant_except_break
                pos <= value@.len(),
                names == explicit_names@,
                span == raw0.literal.span,
                raw0 == raw,
                value@ == raw0.literal.value@,
                names == spec_explicit_names(raw0.arguments@),
                has_positional == spec_has_positional(raw0.arguments@),
                all_owned(*fields, selected@),
                answers_wf(answers@, value@.len() - pos),
                forall|p: spec_fn(nat, Seq<char>) -> Option<Seq<char>>|
                    sound_reading(p) && #[trigger] agrees(p, answers@) ==> spec_resolution(raw0, *fields, p) == prepend_capture(
                        output@,
                        spec_resolve_text(*fields, value@.skip(pos as int), names, has_positional, uses@, selected@, p),
                    ),
            ensures
                answers_wf(answers@, -1),
                forall|p: spec_fn(nat, Seq<char>) -> Option<Seq<char>>|
                    sound_reading(p) && #[trigger] agrees(p, answers@) ==> spec_resolution(raw0, *fields, p) == Ok::<
                        (Seq<char>, Seq<FormatUse>, Seq<Field>),
                        Seq<char>,
                    >((output@, uses@, selected@)),
            decreases value@.len() - pos,
        {
            let ghost before = answers@;
            match resolve_step(&value, pos, fields, &explicit_names, has_positional, &mut output, &mut uses, &mut selected, span, &mut answers) {
                Ok(Step::Done) => {
                    proof {
                        assert forall|p: spec_fn(nat, Seq<char>) -> Option<Seq<char>>| sound_reading(p) && #[trigger] agrees(p, answers@) implies agrees(p, before) by {
                            assert forall|k: nat| #[trigger] before.contains_key(k) implies p(k, before[k].0) == before[k].1 by {
                                assert(answers@.contains_key(k));
                            }
                        }
                        assert forall|k: nat| #[trigger] answers@.contains_key(k) implies k > -1 && (word_text(answers@[k].0) ==> answers@[k].1 == word_ident(answers@[k].0)) by {
                            if before.contains_key(k) {
                                assert(answers@[k] == before[k]);
                            }
                        }
                    }
                    break;
                },
                Ok(Step::Continue(next)) => {
                    proof {
                        assert forall|p: spec_fn(nat, Seq<char>) -> Option<Seq<char>>| sound_reading(p) && #[trigger] agrees(p, answers@) implies agrees(p, before) by {
                            assert forall|k: nat| #[trigger] before.contains_key(k) implies p(k, before[k].0) == before[k].1 by {
                                assert(answers@.contains_key(k));
                            }
                        }
                        assert forall|k: nat| #[trigger] answers@.contains_key(k) implies k > value@.len() - next && (word_text(answers@[k].0) ==> answers@[k].1 == word_ident(answers@[k].0)) by {
                            if before.contains_key(k) {
                                assert(answers@[k] == before[k]);
                            }
                        }
                    }
                    pos = next;
                },
                Err(e) => {
                    proof {
                        let w = recorded_reading(answers@);
                        assert forall|k: nat| #[trigger] answers@.contains_key(k) implies w(k, answers@[k].0) == answers@[k].1 by {}
                        assert(agrees(w, answers@));
                        assert forall|k: nat| #[trigger] before.contains_key(k) implies w(k, before[k].0) == before[k].1 by {
                            assert(answers@.contains_key(k));
                        }
                        assert(agrees(w, before));
                        assert(sound_reading(w));
                        assert(spec_resolution(raw0, *fields, w) == spec_resolution(raw, *fields, w));
                    }
                    return Err(e);
                },
            }
        }
        proof {
            let w = recorded_reading(answers@);
            assert(sound_reading(w));
            assert forall|k: nat| #[trigger] answers@.contains_key(k) implies w(k, answers@[k].0) == answers@[k].1 by {}
            assert(agrees(w, answers@));
            assert(spec_resolution(raw0, *fields, w) == spec_resolution(raw, *fields, w));
        }
        let is_static = arguments.len() == 0 && find_from(&value, 0, '{').is_none() && find_from(&value, 0, '}').is_none();
        proof {
            assert(value@.skip(0) =~= value@);
            crate::text::lemma_find(value@, '{');
            crate::text::lemma_find(value@, '}');
        }
        let text = string_from_chars(&output);
        let token = string_literal(text.as_str());
        let literal = OutputLiteral { value: text, token, span };
        if is_static {
            Ok(Resolved::Static(literal))
        } else {
            let bindings = if arguments.len() == 0 {
                BindingRequirement::Selected(SelectedFields(selected))
            } else {
                BindingRequirement::All
            };
            Ok(Resolved::Dynamic(DynamicFormat { literal, arguments, uses, bindings }))
        }
    }
}

/// What one resolution step leaves to do.
enum Step {
    /// The literal is fully resolved.
    Done,
    /// Resolution continues at this position.
    Continue(usize),
}

/// Resolve the literal `value` from `pos` up to and including its next
/// capture or escape.
#[verifier::rlimit(30)]
fn resolve_step(
    value: &Vec<char>,
    pos: usize,
    fields: &Fields,
    explicit_names: &Vec<String>,
    has_positional: bool,
    output: &mut Vec<char>,
    uses: &mut Vec<FormatUse>,
    selected: &mut Vec<Field>,
    span: Span,
    answers: &mut Ghost<Map<nat, (Seq<char>, Option<Seq<char>>)>>,
) -> (r: Result<Step, Error>)
    requires
        pos <= value@.len(),
        all_owned(*fields, old(selected)@),
        answers_wf(old(answers)@, value@.len() - pos),
    ensures
        all_owned(*fields, final(selected)@),
        forall|k: nat| #[trigger] old(answers)@.contains_key(k) ==> final(answers)@.contains_key(k) && final(answers)@[k] == old(answers)@[k],
        forall|k: nat|
            #[trigger] final(answers)@.contains_key(k) ==> k >= value@.len() - pos && (word_text(final(answers)@[k].0)
                ==> final(answers)@[k].1 == word_ident(final(answers)@[k].0)),
        r matches Ok(Step::Continue(next)) ==> pos < next <= value@.len(),
        forall|p: spec_fn(nat, Seq<char>) -> Option<Seq<char>>|
            sound_reading(p) && #[trigger] agrees(p, final(answers)@) ==> ({
                let before = prepend_capture(old(output)@, spec_resolve_text(*fields, value@.skip(pos as int), explicit_names@, has_positional, old(uses)@, old(selected)@, p));
                match r {
                    Ok(Step::Done) => before == Ok::<(Seq<char>, Seq<FormatUse>, Seq<Field>), Seq<char>>((final(output)@, final(uses)@, final(selected)@)),
                    Ok(Step::Continue(next)) => before == prepend_capture(final(output)@, spec_resolve_text(*fields, value@.skip(next as int), explicit_names@, has_positional, final(uses)@, final(selected)@, p)),
                    Err(e) => before matches Err(m) && e@.len() == 1 && is_diagnostic(e@[0], span, m),
                }
            }),
{
    let ghost read = value@.skip(pos as int);
    let ghost out0 = output@;
    let ghost uses0 = uses@;
    let ghost sel0 = selected@;
    let ghost names = explicit_names@;
    let ghost answers0 = answers@;
    proof {
        crate::text::lemma_find(read, '{');
    }
    match find_from(value, pos, '{') {
        None => {
            let rest = slice(value, pos, value.len());
            push_chars(output, &rest);
            proof {
                assert(rest@ =~= read);
            }
            Ok(Step::Done)
        },
        Some(offset) => {
            assert(crate::text::is_first(read, '{', offset as int));
            assert(read.len() == value@.len() - pos);
            assert(value@.len() == value.len());
            let open = pos + offset;
            let prefix = slice(value, pos, open);
            assert(prefix@ =~= read.take(offset as int));
            let ghost rest = read.skip(offset as int);
            assert(rest =~= value@.skip(open as int));
            if open + 1 < value.len() && value[open + 1] == '{' {
                push_chars(output, &prefix);
                output.push('{');
                output.push('{');
                let next = open + 2;
                proof {
                    assert(rest.skip(2) =~= value@.skip(next as int));
                    assert(output@ =~= out0 + (prefix@ + seq!['{', '{']));
                    assert forall|p: spec_fn(nat, Seq<char>) -> Option<Seq<char>>| sound_reading(p) && #[trigger] agrees(p, answers@) implies
                        prepend_capture(out0, spec_resolve_text(*fields, read, names, has_positional, uses0, sel0, p))
                        == prepend_capture(output@, spec_resolve_text(*fields, value@.skip(next as int), names, has_positional, uses@, selected@, p)) by {
                        lemma_prepend_capture_twice(out0, prefix@ + seq!['{', '{'], spec_resolve_text(*fields, rest.skip(2), names, has_positional, uses@, selected@, p));
                    }
                }
                Ok(Step::Continue(next))
            } else {
                let ghost after = rest.skip(1);
                assert(after =~= value@.skip(open + 1));
                proof {
                    crate::text::lemma_find(after, '}');
                }
                match find_from(value, open + 1, '}') {
                    None => {
                        let rest_chars = slice(value, pos, value.len());
                        push_chars(output, &rest_chars);
                        proof {
                            assert(rest_chars@ =~= read);
                        }
                        Ok(Step::Done)
                    },
                    Some(close_offset) => {
                        assert(crate::text::is_first(after, '}', close_offset as int));
                        assert(after.len() == value@.len() - open - 1);
                        let close = open + 1 + close_offset;
                        let inside = slice(value, open + 1, close);
                        assert(inside@ =~= after.take(close_offset as int));
                        let ghost tail = after.skip(close_offset + 1);
                        assert(tail =~= value@.skip(close + 1));
                        let (captured, answer) = resolve_capture(&inside, fields, explicit_names, has_positional, uses, selected, span);
                        let ghost key: nat = read.len();
                        proof {
                            answers@ = answers0.insert(key, (capture_head(inside@), answer@));
                            assert forall|p: spec_fn(nat, Seq<char>) -> Option<Seq<char>>| sound_reading(p) && #[trigger] agrees(p, answers@) implies
                                p(read.len(), capture_head(inside@)) == answer@ by {
                                assert(answers@.contains_key(key));
                            }
                        }
                        let rewritten = match captured {
                            Ok(rewritten) => rewritten,
                            Err(e) => {
                                return Err(e);
                            },
                        };
                        push_chars(output, &prefix);
                        output.push('{');
                        push_chars(output, &rewritten);
                        output.push('}');
                        let next = close + 1;
                        proof {
                            let piece = prefix@ + seq!['{'] + rewritten@ + seq!['}'];
                            assert(output@ =~= out0 + piece);
                            assert forall|p: spec_fn(nat, Seq<char>) -> Option<Seq<char>>| sound_reading(p) && #[trigger] agrees(p, answers@) implies
                                prepend_capture(out0, spec_resolve_text(*fields, read, names, has_positional, uses0, sel0, p))
                                == prepend_capture(output@, spec_resolve_text(*fields, value@.skip(next as int), names, has_positional, uses@, selected@, p)) by {
                                assert(p(read.len(), capture_head(inside@)) == answer@);
                                lemma_prepend_capture_twice(out0, piece, spec_resolve_text(*fields, tail, names, has_positional, uses@, selected@, p));
                            }
                        }
                        Ok(Step::Continue(next))
                    },
                }
            }
        },
    }
}

/// Prefixing with nothing changes nothing.
pub proof fn lemma_prepend_capture_empty(r: CaptureOutcome)
    ensures
        prepend_capture(Seq::empty(), r) == r,
{
    if let Ok((out, u, s)) = r {
        assert(Seq::<char>::empty() + out =~= out);
    }
}

} // verus!

verus! {

/// Whether no field is selected twice.
pub open spec fn distinct(selected: Seq<Field>) -> bool {
    forall|i: int, j: int| 0 <= i < j < selected.len() ==> selected[i] != selected[j]
}

/// Whether `longer` starts with `shorter`.
pub open spec fn extends(longer: Seq<Field>, shorter: Seq<Field>) -> bool {
    &&& shorter.len() <= longer.len()
    &&& forall|i: int| 0 <= i < shorter.len() ==> longer[i] == shorter[i]
}

/// The selection facts that resolution maintains: selected fields are
/// distinct fields of the collection, and every use refers to a selected
/// field.
pub open spec fn selection_wf(fields: Fields, uses: Seq<FormatUse>, selected: Seq<Field>) -> bool {
    &&& distinct(selected)
    &&& all_owned(fields, selected)
    &&& forall|k: int| 0 <= k < uses.len() ==> selected.contains(#[trigger] uses[k].field)
}

/// Recording a field of the collection keeps the selection facts.
proof fn lemma_push_unique(fields: Fields, uses: Seq<FormatUse>, selected: Seq<Field>, f: Field)
    requires
        selection_wf(fields, uses, selected),
        fields.owns(f),
    ensures
        selection_wf(fields, uses, push_unique(selected, f)),
        push_unique(selected, f).contains(f),
        extends(push_unique(selected, f), selected),
{
    let s2 = push_unique(selected, f);
    if !selected.contains(f) {
        assert(s2[selected.len() as int] == f);
        assert forall|k: int| 0 <= k < uses.len() implies s2.contains(#[trigger] uses[k].field) by {
            let i = choose|i: int| 0 <= i < selected.len() && selected[i] == uses[k].field;
            assert(s2[i] == uses[k].field);
        }
        assert forall|i: int, j: int| 0 <= i < j < s2.len() implies s2[i] != s2[j] by {
            if j == selected.len() {
                assert(s2[i] == selected[i]);
            }
        }
    }
}

/// Dynamic specifier resolution keeps the selection facts and only extends
/// the selection.
proof fn lemma_dynamic_wf(fields: Fields, s: Seq<char>, uses: Seq<FormatUse>, selected: Seq<Field>)
    requires
        selection_wf(fields, uses, selected),
    ensures
        spec_dynamic(fields, s, selected) matches Ok((_, s2)) ==> selection_wf(fields, uses, s2) && extends(s2, selected),
    decreases s.len(),
{
    if s.len() == 0 {
    } else if !is_word(s[0]) {
        lemma_dynamic_wf(fields, s.drop_first(), uses, selected);
    } else {
        lemma_word_run(s);
        let n = word_run(s);
        let token = s.take(n);
        let after = s.skip(n);
        if !(after.len() > 0 && after[0] == '$') {
            lemma_dynamic_wf(fields, after, uses, selected);
        } else {
            match DynamicReference::spec_classify(token) {
                DynamicReference::Positional => if digits_value(token) <= usize::MAX {
                    match fields.spec_tuple_capture(digits_value(token) as int) {
                        Some(f) => {
                            assert(fields.owns(f));
                            lemma_push_unique(fields, uses, selected, f);
                            let p = push_unique(selected, f);
                            lemma_dynamic_wf(fields, after, uses, p);
                            if let Ok((_, s2)) = spec_dynamic(fields, after, p) {
                                assert(extends(s2, selected));
                            }
                        },
                        None => {
                            lemma_dynamic_wf(fields, after, uses, selected);
                        },
                    }
                },
                DynamicReference::Named => {
                    let next = match word_ident(token) {
                        Some(t) => match fields.spec_lookup_name(t) {
                            Ok(f) => push_unique(selected, f),
                            Err(_) => selected,
                        },
                        None => selected,
                    };
                    if let Some(t) = word_ident(token) {
                        fields.lemma_lookup_owns(t);
                        if let Ok(f) = fields.spec_lookup_name(t) {
                            lemma_push_unique(fields, uses, selected, f);
                        }
                    }
                    lemma_dynamic_wf(fields, after, uses, next);
                    if let Ok((_, s2)) = spec_dynamic(fields, after, next) {
                        assert(extends(s2, selected));
                    }
                },
            }
        }
    }
}

/// The field a capture selects is a field of the collection.
proof fn lemma_capture_field_owned(fields: Fields, argument: Seq<char>, explicit_names: Seq<String>, answer: Option<Seq<char>>)
    ensures
        spec_capture_field(fields, argument, explicit_names, answer) matches Ok(Some(f)) ==> fields.owns(f),
{
    if let Some(t) = answer {
        fields.lemma_lookup_owns(t);
    }
}

/// Capture resolution keeps the selection facts.
proof fn lemma_capture_wf(
    fields: Fields,
    inside: Seq<char>,
    explicit_names: Seq<String>,
    has_positional: bool,
    uses: Seq<FormatUse>,
    selected: Seq<Field>,
    answer: Option<Seq<char>>,
)
    requires
        selection_wf(fields, uses, selected),
    ensures
        spec_capture(fields, inside, explicit_names, has_positional, uses, selected, answer) matches Ok((_, u2, s2)) ==> selection_wf(fields, u2, s2),
{
    let argument_end = match find(inside, ':') {
        Some(i) => i,
        None => inside.len() as int,
    };
    let argument = inside.take(argument_end);
    let spec = inside.skip(argument_end);
    lemma_capture_field_owned(fields, argument, explicit_names, answer);
    match spec_capture_field(fields, argument, explicit_names, answer) {
        Err(_) => {},
        Ok(None) => {
            lemma_dynamic_wf(fields, spec, uses, selected);
        },
        Ok(Some(f)) => {
            lemma_push_unique(fields, uses, selected, f);
            let p = push_unique(selected, f);
            lemma_dynamic_wf(fields, spec, uses, p);
            if let Ok((_, s2)) = spec_dynamic(fields, spec, p) {
                let u2 = uses.push(FormatUse { field: f, format_trait: spec_format_trait(spec) });
                assert forall|k: int| 0 <= k < u2.len() implies s2.contains(#[trigger] u2[k].field) by {
                    if k == uses.len() {
                        let i = choose|i: int| 0 <= i < p.len() && p[i] == f;
                        assert(s2[i] == f);
                    } else {
                        assert(u2[k] == uses[k]);
                    }
                }
            }
        },
    }
}

/// Resolution of a literal keeps the selection facts.
proof fn lemma_resolve_text_wf(
    fields: Fields,
    read: Seq<char>,
    explicit_names: Seq<String>,
    has_positional: bool,
    uses: Seq<FormatUse>,
    selected: Seq<Field>,
    reading: spec_fn(nat, Seq<char>) -> Option<Seq<char>>,
)
    requires
        selection_wf(fields, uses, selected),
    ensures
        spec_resolve_text(fields, read, explicit_names, has_positional, uses, selected, reading) matches Ok((_, u2, s2)) ==> selection_wf(fields, u2, s2),
    decreases read.len(),
{
    crate::text::lemma_find(read, '{');
    match find(read, '{') {
        None => {},
        Some(open) => {
            let rest = read.skip(open);
            if rest.len() >= 2 && rest[1] == '{' {
                lemma_resolve_text_wf(fields, rest.skip(2), explicit_names, has_positional, uses, selected, reading);
            } else {
                let after = rest.skip(1);
                crate::text::lemma_find(after, '}');
                match find(after, '}') {
                    None => {},
                    Some(close) => {
                        let inside = after.take(close);
                        let tail = after.skip(close + 1);
                        let answer = reading(read.len(), capture_head(inside));
                        lemma_capture_wf(fields, inside, explicit_names, has_positional, uses, selected, answer);
                        if let Ok((_, u2, s2)) = spec_capture(fields, inside, explicit_names, has_positional, uses, selected, answer) {
                            lemma_resolve_text_wf(fields, tail, explicit_names, has_positional, u2, s2, reading);
                        }
                    },
                }
            }
        },
    }
}

/// The fields in `refs`, each kept at its first occurrence, recorded after
/// `selected`.
pub open spec fn record_all(selected: Seq<Field>, refs: Seq<Field>) -> Seq<Field>
    decreases refs.len(),
{
    if refs.len() == 0 {
        selected
    } else {
        record_all(push_unique(selected, refs[0]), refs.drop_first())
    }
}

/// Recording two runs of references is recording them one after the other.
pub proof fn lemma_record_all_concat(selected: Seq<Field>, a: Seq<Field>, b: Seq<Field>)
    ensures
        record_all(selected, a + b) == record_all(record_all(selected, a), b),
    decreases a.len(),
{
    if a.len() == 0 {
        assert(a + b =~= b);
    } else {
        assert((a + b).drop_first() =~= a.drop_first() + b);
        assert((a + b)[0] == a[0]);
        lemma_record_all_concat(push_unique(selected, a[0]), a.drop_first(), b);
    }
}

/// The fields that the dynamic width and precision references of the
/// specifier `s` name, in order.
pub open spec fn dynamic_references(fields: Fields, s: Seq<char>) -> Seq<Field>
    decreases s.len(),
{
    if s.len() == 0 {
        Seq::empty()
    } else if !is_word(s[0]) {
        dynamic_references(fields, s.drop_first())
    } else {
        proof {
            lemma_word_run(s);
        }
        let n = word_run(s);
        let token = s.take(n);
        let after = s.skip(n);
        if !(after.len() > 0 && after[0] == '$') {
            dynamic_references(fields, after)
        } else {
            match DynamicReference::spec_classify(token) {
                DynamicReference::Positional => if digits_value(token) > usize::MAX {
                    Seq::empty()
                } else {
                    match fields.spec_tuple_capture(digits_value(token) as int) {
                        Some(f) => seq![f] + dynamic_references(fields, after),
                        None => dynamic_references(fields, after),
                    }
                },
                DynamicReference::Named => match word_ident(token) {
                    Some(t) => match fields.spec_lookup_name(t) {
                        Ok(f) => seq![f] + dynamic_references(fields, after),
                        Err(_) => dynamic_references(fields, after),
                    },
                    None => dynamic_references(fields, after),
                },
            }
        }
    }
}

/// Dynamic specifier resolution records exactly the fields its references
/// name, in order.
proof fn lemma_dynamic_records(fields: Fields, s: Seq<char>, selected: Seq<Field>)
    ensures
        spec_dynamic(fields, s, selected) matches Ok((_, s2)) ==> s2 == record_all(selected, dynamic_references(fields, s)),
    decreases s.len(),
{
    if s.len() == 0 {
    } else if !is_word(s[0]) {
        lemma_dynamic_records(fields, s.drop_first(), selected);
    } else {
        lemma_word_run(s);
        let n = word_run(s);
        let token = s.take(n);
        let after = s.skip(n);
        if !(after.len() > 0 && after[0] == '$') {
            lemma_dynamic_records(fields, after, selected);
        } else {
            match DynamicReference::spec_classify(token) {
                DynamicReference::Positional => if digits_value(token) <= usize::MAX {
                    match fields.spec_tuple_capture(digits_value(token) as int) {
                        Some(f) => {
                            let rest = dynamic_references(fields, after);
                            lemma_dynamic_records(fields, after, push_unique(selected, f));
                            assert((seq![f] + rest).drop_first() =~= rest);
                        },
                        None => {
                            lemma_dynamic_records(fields, after, selected);
                        },
                    }
                },
                DynamicReference::Named => {
                    let rest = dynamic_references(fields, after);
                    match word_ident(token) {
                        Some(t) => match fields.spec_lookup_name(t) {
                            Ok(f) => {
                                lemma_dynamic_records(fields, after, push_unique(selected, f));
                                assert((seq![f] + rest).drop_first() =~= rest);
                            },
                            Err(_) => {
                                lemma_dynamic_records(fields, after, selected);
                            },
                        },
                        None => {
                            lemma_dynamic_records(fields, after, selected);
                        },
                    }
                },
            }
        }
    }
}

/// The fields that the capture with contents `inside` names, in order: the
/// field of its head, then those of its dynamic references.
pub open spec fn capture_references(fields: Fields, inside: Seq<char>, explicit_names: Seq<String>, answer: Option<Seq<char>>) -> Seq<Field> {
    let argument_end = match find(inside, ':') {
        Some(i) => i,
        None => inside.len() as int,
    };
    let argument = inside.take(argument_end);
    let spec = inside.skip(argument_end);
    match spec_capture_field(fields, argument, explicit_names, answer) {
        Ok(Some(f)) => seq![f] + dynamic_references(fields, spec),
        Ok(None) => dynamic_references(fields, spec),
        Err(_) => Seq::empty(),
    }
}

/// Capture resolution records exactly the fields the capture names, in order.
proof fn lemma_capture_records(
    fields: Fields,
    inside: Seq<char>,
    explicit_names: Seq<String>,
    has_positional: bool,
    uses: Seq<FormatUse>,
    selected: Seq<Field>,
    answer: Option<Seq<char>>,
)
    ensures
        spec_capture(fields, inside, explicit_names, has_positional, uses, selected, answer) matches Ok((_, _, s2)) ==> s2
            == record_all(selected, capture_references(fields, inside, explicit_names, answer)),
{
    let argument_end = match find(inside, ':') {
        Some(i) => i,
        None => inside.len() as int,
    };
    let argument = inside.take(argument_end);
    let spec = inside.skip(argument_end);
    match spec_capture_field(fields, argument, explicit_names, answer) {
        Err(_) => {},
        Ok(None) => {
            lemma_dynamic_records(fields, spec, selected);
        },
        Ok(Some(f)) => {
            lemma_dynamic_records(fields, spec, push_unique(selected, f));
            assert((seq![f] + dynamic_references(fields, spec)).drop_first() =~= dynamic_references(fields, spec));
        },
    }
}

/// The fields that the captures of the literal `read` name, in order.
pub open spec fn text_references(
    fields: Fields,
    read: Seq<char>,
    explicit_names: Seq<String>,
    reading: spec_fn(nat, Seq<char>) -> Option<Seq<char>>,
) -> Seq<Field>
    decreases read.len(),
{
    match find(read, '{') {
        None => Seq::empty(),
        Some(open) => {
            proof {
                crate::text::lemma_find(read, '{');
            }
            let rest = read.skip(open);
            if rest.len() >= 2 && rest[1] == '{' {
                text_references(fields, rest.skip(2), explicit_names, reading)
            } else {
                let after = rest.skip(1);
                match find(after, '}') {
                    None => Seq::empty(),
                    Some(close) => {
                        proof {
                            crate::text::lemma_find(after, '}');
                        }
                        let inside = after.take(close);
                        let tail = after.skip(close + 1);
                        capture_references(fields, inside, explicit_names, reading(read.len(), capture_head(inside)))
                            + text_references(fields, tail, explicit_names, reading)
                    },
                }
            }
        },
    }
}

/// Literal resolution records exactly the fields its captures name, in order.
proof fn lemma_resolve_text_records(
    fields: Fields,
    read: Seq<char>,
    explicit_names: Seq<String>,
    has_positional: bool,
    uses: Seq<FormatUse>,
    selected: Seq<Field>,
    reading: spec_fn(nat, Seq<char>) -> Option<Seq<char>>,
)
    ensures
        spec_resolve_text(fields, read, explicit_names, has_positional, uses, selected, reading) matches Ok((_, _, s2)) ==> s2
            == record_all(selected, text_references(fields, read, explicit_names, reading)),
    decreases read.len(),
{
    match find(read, '{') {
        None => {},
        Some(open) => {
            crate::text::lemma_find(read, '{');
            let rest = read.skip(open);
            if rest.len() >= 2 && rest[1] == '{' {
                lemma_resolve_text_records(fields, rest.skip(2), explicit_names, has_positional, uses, selected, reading);
            } else {
                let after = rest.skip(1);
                match find(after, '}') {
                    None => {},
                    Some(close) => {
                        crate::text::lemma_find(after, '}');
                        let inside = after.take(close);
                        let tail = after.skip(close + 1);
                        let answer = reading(read.len(), capture_head(inside));
                        lemma_capture_records(fields, inside, explicit_names, has_positional, uses, selected, answer);
                        match spec_capture(fields, inside, explicit_names, has_positional, uses, selected, answer) {
                            Err(_) => {},
                            Ok((_, u2, s2)) => {
                                lemma_resolve_text_records(fields, tail, explicit_names, has_positional, u2, s2, reading);
                                lemma_record_all_concat(
                                    selected,
                                    capture_references(fields, inside, explicit_names, answer),
                                    text_references(fields, tail, explicit_names, reading),
                                );
                            },
                        }
                    },
                }
            }
        },
    }
}

/// The fields that the captures of a source format name, in order: for each
/// capture, the field of its head, then those of its dynamic width and
/// precision references.
pub open spec fn spec_references(format: Format, fields: Fields, reading: spec_fn(nat, Seq<char>) -> Option<Seq<char>>) -> Seq<Field> {
    text_references(fields, format.literal.value@, spec_explicit_names(format.arguments@), reading)
}

/// Resolving a format selects every field at most once, selects only fields
/// of the collection, and records a formatting use only for a selected field.
pub proof fn lemma_resolution_selection(format: Format, fields: Fields, reading: spec_fn(nat, Seq<char>) -> Option<Seq<char>>)
    ensures
        spec_resolution(format, fields, reading) matches Ok((_, uses, selected)) ==> selection_wf(fields, uses, selected),
{
    lemma_resolve_text_wf(
        fields,
        format.literal.value@,
        spec_explicit_names(format.arguments@),
        spec_has_positional(format.arguments@),
        Seq::empty(),
        Seq::empty(),
        reading,
    );
}

/// A literal without braces resolves to itself with no uses and no selected
/// fields.
pub proof fn lemma_brace_free_literal_unchanged(format: Format, fields: Fields, reading: spec_fn(nat, Seq<char>) -> Option<Seq<char>>)
    requires
        !contains_char(format.literal.value@, '{'),
    ensures
        spec_resolution(format, fields, reading) == Ok::<(Seq<char>, Seq<FormatUse>, Seq<Field>), Seq<char>>((format.literal.value@, Seq::empty(), Seq::empty())),
{
    crate::text::lemma_find(format.literal.value@, '{');
}

} // verus!

verus! {

impl Resolved {
    /// The formatting uses of this format: none for a static message.
    pub open spec fn spec_uses(&self) -> Seq<FormatUse> {
        match self {
            Resolved::Static(_) => Seq::empty(),
            Resolved::Dynamic(d) => d.uses@,
        }
    }

    /// Return formatting requirements introduced by captured fields.
    pub fn uses(&self) -> (r: &[FormatUse])
        ensures
            r@ == self.spec_uses(),
    {
        match self {
            Resolved::Static(_) => {
                let empty: &[FormatUse] = &[];
                assert(empty@ =~= Seq::<FormatUse>::empty());
                empty
            },
            Resolved::Dynamic(format) => format.uses(),
        }
    }
}

impl DynamicFormat {
    /// Return the rewritten format literal consumed by generated code.
    pub fn literal(&self) -> (r: &OutputLiteral)
        ensures
            *r == self.literal,
    {
        &self.literal
    }

    /// Return explicit Rust format arguments.
    pub fn arguments(&self) -> (r: &Vec<Argument>)
        ensures
            r@ == self.arguments@,
    {
        &self.arguments
    }

    /// Return formatting requirements introduced by captures.
    pub fn uses(&self) -> (r: &[FormatUse])
        ensures
            r@ == self.uses@,
    {
        self.uses.as_slice()
    }

    /// Return the field binding policy established during resolution.
    pub fn bindings(&self) -> (r: &BindingRequirement)
        ensures
            *r == self.bindings,
    {
        &self.bindings
    }
}

} // verus!

verus! {

/// The bindings a dynamic format asks for: every field when explicit
/// arguments are present (they may read any field), else exactly the selected
/// fields, which are distinct fields of the collection and include the field
/// of every formatting use. The selected fields are the fields that the
/// captures reference (each capture's head, then its width and precision
/// references), each once, in the order of its first reference: no field
/// that no capture references is bound.
pub proof fn law_resolved_bindings(raw: Format, fields: Fields, resolved: Resolved, reading: Reading)
    requires
        sound_reading(reading),
        spec_resolution(raw, fields, reading) is Ok,
        resolved.describes(
            raw,
            spec_resolution(raw, fields, reading)->Ok_0.0,
            spec_resolution(raw, fields, reading)->Ok_0.1,
            spec_resolution(raw, fields, reading)->Ok_0.2,
        ),
    ensures
        resolved matches Resolved::Dynamic(d) ==> ((d.bindings is All) == (raw.arguments@.len() > 0)),
        resolved matches Resolved::Dynamic(d) ==> (d.bindings matches BindingRequirement::Selected(s) ==> {
            &&& distinct(s.0@)
            &&& all_owned(fields, s.0@)
            &&& forall|j: int| 0 <= j < d.uses@.len() ==> s.0@.contains(#[trigger] d.uses@[j].field)
            &&& s.0@ == record_all(Seq::empty(), spec_references(raw, fields, reading))
        }),
{
    lemma_resolution_selection(raw, fields, reading);
    lemma_resolve_text_records(
        fields,
        raw.literal.value@,
        spec_explicit_names(raw.arguments@),
        spec_has_positional(raw.arguments@),
        Seq::empty(),
        Seq::empty(),
        reading,
    );
}

} // verus!
