use fack_codegen::ast::{Error, Generics, Ident, LitInt, LitStr, Span, Type};
use fack_codegen::expand::binding::push_pattern;
use fack_codegen::input::attribute::{RawAttribute, RawContent, RawParam};
use fack_codegen::input::field::{FieldRef, Fields, NamedField};
use fack_codegen::input::format::Format;
use fack_codegen::input::target::{Data, DeriveInput, RawVariant};
use fack_codegen::{generate, Target};

fn sp(id: usize) -> Span {
    Span::new(id)
}

fn ident(text: &str, id: usize) -> Ident {
    Ident::new(text, sp(id))
}

fn ty(text: &str) -> Type {
    Type::opaque(text, sp(90))
}

fn path_ty(text: &str, last: &str, argument: Option<Type>) -> Type {
    Type::path(text, last, argument, sp(91))
}

fn io_error() -> Type {
    path_ty("std :: io :: Error", "Error", None)
}

fn format_attr(literal: &str) -> RawAttribute {
    RawAttribute { is_error: true, arguments: Ok(RawParam::Format(Format::new(LitStr::new(literal, sp(10)), vec![]))) }
}

fn keyword_attr(keyword: &str, content: Option<RawContent>) -> RawAttribute {
    RawAttribute { is_error: true, arguments: Ok(RawParam::Keyword { keyword: ident(keyword, 20), after: content.as_ref().map(|_| sp(25)), content, rest: None, end: sp(0) }) }
}

fn named_ref(name: &str) -> Option<RawContent> {
    Some(RawContent::Ident(ident(name, 21)))
}

fn index_ref(digits: &str) -> Option<RawContent> {
    Some(RawContent::Int(LitInt::new(digits, sp(22))))
}

fn named(fields: Vec<(&str, Type)>) -> Fields {
    Fields::Named(fields.into_iter().enumerate().map(|(i, (name, ty))| NamedField::new(ident(name, 30 + i), ty)).collect())
}

fn structure(attrs: Vec<RawAttribute>, fields: Fields) -> DeriveInput {
    DeriveInput { ident: ident("Error", 1), generics: Generics::new("", "", None), attrs, data: Data::Struct(fields) }
}

fn expand(input: DeriveInput) -> String {
    match generate(input) {
        Ok(tokens) => tokens.into_stream().to_string(),
        Err(error) => panic!("test derive input must validate and expand: {:?}", error),
    }
}

fn messages(error: &Error) -> Vec<String> {
    error.diagnostics().iter().map(|d| d.message.clone()).collect()
}

fn failure(input: DeriveInput) -> Vec<String> {
    let result = Target::input(input).and_then(Target::validate);
    match result {
        Ok(_) => panic!("invalid declaration must be rejected"),
        Err(error) => messages(&error),
    }
}

fn static_structure() -> DeriveInput {
    structure(vec![format_attr("static message")], Fields::Unit)
}

fn ordinary_source() -> DeriveInput {
    structure(vec![format_attr("outer"), keyword_attr("source", named_ref("inner"))], named(vec![("inner", io_error())]))
}

fn transparent_source() -> DeriveInput {
    structure(vec![keyword_attr("transparent", named_ref("inner"))], named(vec![("inner", io_error())]))
}

#[test]
fn codegen_static_messages_use_formatter_write_str() {
    let output = expand(static_structure());

    assert!(output.contains("write_str"));
    assert!(!output.contains("write !"));
}

#[test]
fn expand_static_messages_use_formatter_write_str() {
    let output = expand(static_structure());

    assert!(output.contains("write_str"), "static display must call write_str");
    assert!(!output.contains("write !"), "static display must not call write");
}

#[test]
fn codegen_source_less_errors_do_not_override_source() {
    let output = expand(static_structure());

    assert!(!output.contains("fn source"));
}

#[test]
fn expand_source_less_errors_do_not_override_source() {
    let output = expand(static_structure());

    assert!(!output.contains("fn source"), "source-less errors must not override source");
}

#[test]
fn codegen_ordinary_and_transparent_sources_expand_differently() {
    let ordinary = expand(ordinary_source());
    let transparent = expand(transparent_source());

    assert!(ordinary.contains("Some"));
    assert!(transparent.contains("Error :: source"));
}

#[test]
fn expand_ordinary_and_transparent_sources_expand_differently() {
    let ordinary = expand(ordinary_source());
    let transparent = expand(structure(
        vec![keyword_attr("transparent", named_ref("inner"))],
        named(vec![("context", ty("u8")), ("inner", io_error())]),
    ));

    assert!(ordinary.contains("Some"), "ordinary sources must return Some");
    assert!(transparent.contains("Error :: source"), "transparent sources must delegate source lookup");
}

#[test]
fn binding_named_bindings_select_only_requested_fields() {
    let fields = named(vec![("first", ty("u8")), ("second", ty("u16"))]);
    let second = fields.named(&ident("second", 40)).expect("named field must resolve");
    let mut pattern = Vec::new();
    push_pattern(&mut pattern, &fields, std::slice::from_ref(&second));
    let pattern: String = pattern.into_iter().collect();

    let indexed = FieldRef::Indexed { index: 1, literal: LitInt::new("1", sp(41)) };

    assert!(fields.resolve(indexed).is_err(), "named fields must reject tuple lookup");
    assert!(pattern.contains("second"), "selected field must be bound");
    assert!(!pattern.contains("first"), "unselected field must remain unbound");
}

#[test]
fn binding_tuple_bindings_preserve_field_positions() {
    let fields = Fields::Unnamed(vec![ty("u8"), ty("u16"), ty("u32")]);
    let indexed = FieldRef::Indexed { index: 1, literal: LitInt::new("1", sp(41)) };
    let second = fields.resolve(indexed).expect("tuple field must resolve");
    let mut pattern = Vec::new();
    push_pattern(&mut pattern, &fields, std::slice::from_ref(&second));
    let pattern: String = pattern.into_iter().collect();

    assert!(pattern.contains("_1"), "selected tuple field must be bound");
    assert!(pattern.starts_with('('), "tuple pattern must remain positional");
    assert_eq!(pattern, "( _, ref _1, _ )");
}

#[test]
fn named_resolution_produces_complete_field_proof() {
    let fields = named(vec![("first", ty("u8")), ("second", ty("u16"))]);
    let field = fields.named(&ident("second", 40)).expect("named field must resolve");

    assert_eq!(field.index(), 1, "resolved named field must preserve declaration position");
    assert_eq!(field.name().map(|n| n.text.clone()), Some("second".to_string()), "resolved named field must preserve its source name");
    assert_eq!(field.ty().text, "u16", "resolved named field must preserve its type");
}

#[test]
fn tuple_resolution_produces_complete_field_proof() {
    let fields = Fields::Unnamed(vec![ty("u8"), ty("u16")]);
    let reference = FieldRef::Indexed { index: 1, literal: LitInt::new("1", sp(41)) };
    let field = fields.resolve(reference).expect("tuple field must resolve");

    assert_eq!(field.index(), 1, "resolved tuple field must preserve declaration position");
    assert!(field.name().is_none(), "resolved tuple field must remain unnamed");
    assert_eq!(field.ty().text, "u16", "resolved tuple field must preserve its type");
}

#[test]
fn conflicting_display_syntax_fails_during_input() {
    let input = structure(vec![format_attr("outer"), keyword_attr("display", named_ref("render"))], Fields::Unit);
    let error = Target::input(input).err().expect("conflicting display syntax must fail during input classification");

    assert!(messages(&error)[0].contains("both a format string and `display(...)`"), "input conflict must report the expected diagnostic");
}

#[test]
fn unknown_source_fails_during_validation() {
    let input = structure(vec![format_attr("outer"), keyword_attr("source", named_ref("missing"))], named(vec![("inner", ty("u8"))]));
    let target = Target::input(input).expect("unknown sources pass input classification");
    let error = target.validate().err().expect("unknown source must fail during semantic validation");

    assert!(messages(&error)[0].contains("unknown named field"), "semantic failure must report the unknown field");
}

fn invalid_declarations() -> Vec<(&'static str, DeriveInput, &'static str)> {
    let ambiguous = DeriveInput {
        ident: ident("Error", 1),
        generics: Generics::new("", "", None),
        attrs: vec![RawAttribute {
            is_error: true,
            arguments: Ok(RawParam::Format(Format::new(
                LitStr::new("outer {0}", sp(10)),
                vec![fack_codegen::input::format::Argument::new(None, "3")],
            ))),
        }],
        data: Data::Struct(Fields::Unnamed(vec![ty("u8")])),
    };
    vec![
        ("ambiguous_position", ambiguous, ""),
        ("display_format", structure(vec![format_attr("outer"), keyword_attr("display", named_ref("custom"))], Fields::Unit), "both a format string"),
        (
            "duplicate_source",
            structure(
                vec![format_attr("outer"), keyword_attr("source", named_ref("inner")), keyword_attr("source", named_ref("inner"))],
                named(vec![("inner", io_error())]),
            ),
            "parameter declared more than once",
        ),
        ("from_many", structure(vec![format_attr("outer"), keyword_attr("from", None)], Fields::Unnamed(vec![io_error(), ty("u8")])), "expected exactly one field"),
        (
            "from_transparent",
            structure(vec![keyword_attr("transparent", index_ref("0")), keyword_attr("from", None)], Fields::Unnamed(vec![io_error()])),
            "transparent error cannot also derive `From`",
        ),
        ("from_unit", structure(vec![format_attr("outer"), keyword_attr("from", None)], Fields::Unit), "expected exactly one field"),
        ("indexed_named", structure(vec![format_attr("outer"), keyword_attr("source", index_ref("0"))], named(vec![("inner", io_error())])), "indexed field reference used with named fields"),
        ("indexed_out_of_bounds", structure(vec![format_attr("outer"), keyword_attr("source", index_ref("2"))], Fields::Unnamed(vec![io_error()])), "tuple field index is out of bounds"),
        (
            "optional_transparent",
            structure(vec![keyword_attr("transparent", index_ref("0"))], Fields::Unnamed(vec![path_ty("Option < std :: io :: Error >", "Option", Some(io_error()))])),
            "transparent error source cannot be optional",
        ),
        ("source_unit", structure(vec![format_attr("outer"), keyword_attr("source", index_ref("0"))], Fields::Unit), "unit fields cannot contain a field reference"),
        ("transparent_format", structure(vec![format_attr("outer"), keyword_attr("transparent", index_ref("0"))], Fields::Unnamed(vec![io_error()])), "transparent error cannot also declare display formatting"),
        ("unknown_format_capture", structure(vec![format_attr("outer {missing}")], named(vec![("present", ty("u8"))])), ""),
        ("unknown_source", structure(vec![format_attr("outer"), keyword_attr("source", named_ref("missing"))], named(vec![("inner", io_error())])), "unknown named field"),
    ]
}

#[test]
fn lib_invalid_error_declarations_fail_with_fack_diagnostics() {
    for (name, input, expected) in invalid_declarations() {
        let messages = failure(input);
        assert!(!messages.is_empty(), "{name} must report a diagnostic");
        assert!(messages.iter().any(|m| m.contains(expected)), "{name} must report `{expected}`, got {messages:?}");
    }
}

#[test]
fn compile_fail_invalid_error_declarations_fail_with_fack_diagnostics() {
    for (name, input, _) in invalid_declarations() {
        assert!(generate(input).is_err(), "{name} must not expand");
    }
}

#[test]
fn unions_cannot_derive_error() {
    let input = DeriveInput { ident: ident("Union", 5), generics: Generics::new("", "", None), attrs: vec![], data: Data::Union };
    let error = generate(input).err().expect("unions must be rejected");

    assert_eq!(messages(&error), vec!["unions cannot derive Error".to_string()]);
    assert_eq!(error.diagnostics()[0].span, sp(5));
}

#[test]
fn behavior_parameters_on_an_enum_are_rejected() {
    let input = DeriveInput {
        ident: ident("Enum", 1),
        generics: Generics::new("", "", None),
        attrs: vec![format_attr("enum level")],
        data: Data::Enum(vec![RawVariant { ident: ident("A", 2), attrs: vec![format_attr("a")], fields: Fields::Unit }]),
    };

    assert_eq!(failure(input), vec!["only `inline` and `import` are valid on an error enum".to_string()]);
}

#[test]
fn container_parameters_on_a_variant_are_rejected() {
    let input = DeriveInput {
        ident: ident("Enum", 1),
        generics: Generics::new("", "", None),
        attrs: vec![],
        data: Data::Enum(vec![RawVariant {
            ident: ident("A", 2),
            attrs: vec![keyword_attr("inline", None), format_attr("a")],
            fields: Fields::Unit,
        }]),
    };

    assert_eq!(failure(input), vec!["this parameter belongs on the enum".to_string()]);
}

#[test]
fn duplicates_report_every_extra_declaration() {
    let input = structure(
        vec![format_attr("one"), format_attr("two"), format_attr("three"), keyword_attr("inline", None), keyword_attr("inline", None)],
        Fields::Unit,
    );

    assert_eq!(
        failure(input),
        vec![
            "parameter declared more than once".to_string(),
            "duplicate parameter".to_string(),
            "duplicate parameter".to_string(),
            "parameter declared more than once".to_string(),
            "duplicate parameter".to_string(),
        ]
    );
}

#[test]
fn missing_display_is_reported_at_the_type() {
    let input = structure(vec![keyword_attr("source", named_ref("inner"))], named(vec![("inner", io_error())]));
    let error = Target::input(input).err().expect("a display is required");

    assert_eq!(messages(&error), vec!["error requires a format string, `display(...)`, or `transparent(...)`".to_string()]);
    assert_eq!(error.diagnostics()[0].span, sp(1));
}

#[test]
fn from_and_explicit_source_must_agree() {
    let input = structure(
        vec![format_attr("outer"), keyword_attr("from", None), keyword_attr("source", named_ref("missing"))],
        named(vec![("inner", io_error())]),
    );

    assert_eq!(failure(input), vec!["unknown named field".to_string()]);

    let agreeing = structure(
        vec![format_attr("outer"), keyword_attr("from", None), keyword_attr("source", named_ref("inner"))],
        named(vec![("inner", io_error())]),
    );
    let output = expand(agreeing);
    assert!(output.contains("From < std :: io :: Error > for Error"));
    assert!(output.contains("Self { inner : value }"));
}

#[test]
fn enum_conversions_precede_display_and_error() {
    let input = DeriveInput {
        ident: ident("AppError", 1),
        generics: Generics::new("", "", None),
        attrs: vec![],
        data: Data::Enum(vec![
            RawVariant { ident: ident("Io", 2), attrs: vec![format_attr("io error"), keyword_attr("from", None)], fields: Fields::Unnamed(vec![io_error()]) },
            RawVariant { ident: ident("Other", 3), attrs: vec![format_attr("other")], fields: Fields::Unit },
        ]),
    };
    let target = Target::input(input).and_then(Target::validate).expect("enum must validate");
    let source = target.source();

    assert!(source.starts_with("#[automatically_derived] impl  From<std :: io :: Error> for AppError  {  fn from(value: std :: io :: Error) -> Self { Self::Io(value) } } "));
    assert!(source.contains("&Self::Io ( ref _0 ) => Some(_0), &Self::Other  => None }"));
    assert!(source.contains("std :: io :: Error: ::core::error::Error + 'static"));
}

#[test]
fn keyword_captures_are_not_identifiers() {
    let input = structure(vec![format_attr("value {match}")], named(vec![("value", ty("u8"))]));

    assert_eq!(failure(input), vec!["invalid named format capture".to_string()]);
}

#[test]
fn raw_identifier_captures_name_raw_fields() {
    let input = structure(vec![format_attr("kind {r#type}")], named(vec![("r#type", ty("u8"))]));
    let output = expand(input);

    assert!(output.contains("ref r#type"));
}

#[test]
fn unlexable_generated_text_is_reported_at_the_type() {
    let input = structure(vec![format_attr("{0}")], Fields::Unnamed(vec![ty("Broken )")]));
    let error = generate(input).err().expect("unbalanced type text cannot be tokenized");

    assert_eq!(messages(&error), vec!["generated implementation is not valid Rust tokens".to_string()]);
    assert_eq!(error.diagnostics()[0].span, sp(1));
}

#[test]
fn sourceless_enumerations_keep_the_default_source() {
    let input = DeriveInput {
        ident: ident("Configured", 1),
        generics: Generics::new("", "", None),
        attrs: vec![keyword_attr("inline", None)],
        data: Data::Enum(vec![
            RawVariant { ident: ident("First", 2), attrs: vec![format_attr("first error")], fields: Fields::Unit },
            RawVariant { ident: ident("Second", 3), attrs: vec![format_attr("second error")], fields: Fields::Unit },
        ]),
    };
    let source = Target::input(input).and_then(Target::validate).expect("enum must validate").source();

    assert!(source.ends_with(" #[automatically_derived] impl  ::core::error::Error for Configured  where Self: ::core::fmt::Debug + ::core::fmt::Display {  }"));
    assert!(source.contains("match self { &Self::First  => { f.write_str(\"first error\") }, &Self::Second  => { f.write_str(\"second error\") } }"));
    assert!(source.contains("{ #[inline] fn fmt("));
}
