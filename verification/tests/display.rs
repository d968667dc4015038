use fack_codegen::ast::{Error, Generics, Ident, LitInt, LitStr, Path, Span, Type};
use fack_codegen::input::attribute::{RawAttribute, RawContent, RawParam};
use fack_codegen::input::field::{Fields, NamedField};
use fack_codegen::input::format::{Argument, Format};
use fack_codegen::input::target::{Data, DeriveInput, RawVariant};
use fack_codegen::Target;

fn sp(id: usize) -> Span {
    Span::new(id)
}

fn ident(text: &str, id: usize) -> Ident {
    Ident::new(text, sp(id))
}

fn no_generics() -> Generics {
    Generics::new("", "", None)
}

fn ty(text: &str) -> Type {
    Type::opaque(text, sp(90))
}

fn generic(name: &str) -> Type {
    Type::path(name, name, None, sp(91))
}

fn format_attr(literal: &str, arguments: Vec<Argument>) -> RawAttribute {
    RawAttribute {
        is_error: true,
        arguments: Ok(RawParam::Format(Format::new(LitStr::new(literal, sp(10)), arguments))),
    }
}

fn keyword_attr(keyword: &str, content: Option<RawContent>) -> RawAttribute {
    RawAttribute {
        is_error: true,
        arguments: Ok(RawParam::Keyword { keyword: ident(keyword, 20), after: content.as_ref().map(|_| sp(25)), content, rest: None, end: sp(0) }),
    }
}

fn display_attr(path: &str) -> RawAttribute {
    keyword_attr("display", Some(RawContent::Ident(ident(path, 21))))
}

fn named(fields: Vec<(&str, Type)>) -> Fields {
    Fields::Named(fields.into_iter().enumerate().map(|(i, (name, ty))| NamedField::new(ident(name, 30 + i), ty)).collect())
}

fn structure(name: &str, generics: Generics, attrs: Vec<RawAttribute>, fields: Fields) -> DeriveInput {
    DeriveInput { ident: ident(name, 1), generics, attrs, data: Data::Struct(fields) }
}

fn source_of(input: DeriveInput) -> Result<String, Error> {
    let target = Target::input(input)?;
    let validated = target.validate()?;
    Ok(validated.source())
}

fn generated(input: DeriveInput) -> String {
    match source_of(input) {
        Ok(text) => text,
        Err(error) => panic!("generation failed: {:?}", error),
    }
}

#[test]
fn format_strings_capture_tuple_and_named_fields() {
    let tuple_source = generated(structure(
        "TupleFormat",
        no_generics(),
        vec![format_attr("tuple {0} debug {1:?} hex {2:#x}", vec![])],
        Fields::Unnamed(vec![ty("u8"), ty("& 'static str"), ty("u16")]),
    ));
    let named_source = generated(structure(
        "NamedFormat",
        no_generics(),
        vec![format_attr("named {name} debug {value:?} hex {code:#x}", vec![])],
        named(vec![("name", ty("& 'static str")), ("value", ty("Option < u8 >")), ("code", ty("u16"))]),
    ));

    assert!(tuple_source.contains("let &Self ( ref _0, ref _1, ref _2 ) = self;"));
    assert!(tuple_source.contains("::core::write!(f, \"tuple {_0} debug {_1:?} hex {_2:#x}\", )"));
    assert!(named_source.contains("let &Self { ref name, ref value, ref code, .. } = self;"));
    assert!(named_source.contains("::core::write!(f, \"named {name} debug {value:?} hex {code:#x}\", )"));

    let (_0, _1, _2) = (&7_u8, &"text", &0x2a_u16);
    assert_eq!(format!("tuple {_0} debug {_1:?} hex {_2:#x}"), "tuple 7 debug \"text\" hex 0x2a");
    let (name, value, code) = (&"item", &Some(3_u8), &0x2a_u16);
    assert_eq!(format!("named {name} debug {value:?} hex {code:#x}"), "named item debug Some(3) hex 0x2a");
}

#[test]
fn format_strings_preserve_explicit_arguments_and_escaped_braces() {
    let source = generated(structure(
        "ExpressionFormat",
        no_generics(),
        vec![format_attr("escaped {{field}} and {}", vec![Argument::new(None, "value . abs ()")])],
        named(vec![("value", ty("i8"))]),
    ));

    assert!(source.contains("let &Self { ref value, .. } = self;"));
    assert!(source.contains("::core::write!(f, \"escaped {{field}} and {}\", value . abs ())"));

    let value = &-7_i8;
    assert_eq!(format!("escaped {{field}} and {}", value.abs()), "escaped {field} and 7");
}

#[test]
fn format_captures_add_only_required_format_bounds() {
    let display = generated(structure(
        "GenericDisplay",
        Generics::new("< T >", "< T >", None),
        vec![format_attr("generic {0}", vec![])],
        Fields::Unnamed(vec![generic("T")]),
    ));
    let debug = generated(structure(
        "GenericDebug",
        Generics::new("< T >", "< T >", None),
        vec![format_attr("generic debug {0:?}", vec![])],
        Fields::Unnamed(vec![generic("T")]),
    ));

    assert!(display.contains(" where T: ::core::fmt::Display"));
    assert!(!display.contains("T: ::core::fmt::Debug"));
    assert!(debug.contains(" where T: ::core::fmt::Debug"));
    assert!(!debug.contains("T: ::core::fmt::Display"));

    let _0 = &17_u8;
    assert_eq!(format!("generic {_0}"), "generic 17");
    let _0 = &Some(4_u8);
    assert_eq!(format!("generic debug {_0:?}"), "generic debug Some(4)");
}

#[test]
fn explicit_named_format_arguments_take_precedence_over_field_capture() {
    let source = generated(structure(
        "NamedArgument",
        no_generics(),
        vec![format_attr("named argument {rendered}", vec![Argument::new(Some(ident("rendered", 40)), "value . abs ()")])],
        named(vec![("value", ty("i8"))]),
    ));

    assert!(source.contains("::core::write!(f, \"named argument {rendered}\", rendered = value . abs ())"));
    assert!(!source.contains("i8: "));

    let value = &-9_i8;
    assert_eq!(format!("named argument {rendered}", rendered = value.abs()), "named argument 9");
}

struct CustomDisplay {
    value: u8,
}

fn custom_format(error: &CustomDisplay, formatter: &mut std::fmt::Formatter<'_>) -> std::fmt::Result {
    let &CustomDisplay { value } = error;
    formatter.write_str(&format!("custom {value}"))
}

// Written by hand with the body that the derive generates for this type (the
// generated text is checked in the test below); the derive itself is not run
// here, so `to_string` exercises the custom formatter, not generated code.
impl std::fmt::Display for CustomDisplay {
    fn fmt(&self, f: &mut std::fmt::Formatter<'_>) -> std::fmt::Result {
        custom_format(self, f)
    }
}

#[test]
fn custom_display_formatter_is_an_escape_hatch() {
    let source = generated(structure(
        "CustomDisplay",
        no_generics(),
        vec![display_attr("custom_format")],
        named(vec![("value", ty("u8"))]),
    ));

    assert!(source.contains("-> ::core::fmt::Result { custom_format(self, f) }"));
    assert_eq!(CustomDisplay { value: 5 }.to_string(), "custom 5");
}

#[test]
fn unused_fields_do_not_acquire_format_bounds() {
    let source = generated(structure(
        "SelectiveFormat",
        Generics::new("< T , U >", "< T , U >", None),
        vec![format_attr("selected {selected}", vec![])],
        named(vec![("selected", generic("T")), ("_unused", generic("U"))]),
    ));

    assert!(source.contains(" where T: ::core::fmt::Display"));
    assert!(!source.contains("U: "));
    assert!(source.contains("let &Self { ref selected, .. } = self;"));

    let selected = &3_u8;
    assert_eq!(format!("selected {selected}"), "selected 3");
}

#[test]
fn dynamic_width_fields_are_resolved_and_bound() {
    let named_source = generated(structure(
        "NamedWidth",
        no_generics(),
        vec![format_attr("named {value:>width$}", vec![])],
        named(vec![("value", ty("u8")), ("width", ty("usize"))]),
    ));
    let tuple_source = generated(structure(
        "TupleWidth",
        no_generics(),
        vec![format_attr("tuple {0:>1$}", vec![])],
        Fields::Unnamed(vec![ty("u8"), ty("usize")]),
    ));

    assert!(named_source.contains("let &Self { ref value, ref width, .. } = self;"));
    assert!(named_source.contains("\"named {value:>width$}\""));
    assert!(tuple_source.contains("let &Self ( ref _0, ref _1 ) = self;"));
    assert!(tuple_source.contains("\"tuple {_0:>_1$}\""));

    let (value, width) = (&7_u8, &3_usize);
    assert_eq!(format!("named {value:>width$}"), "named   7");
    let (_0, _1) = (&7_u8, &3_usize);
    assert_eq!(format!("tuple {_0:>_1$}"), "tuple   7");
}

enum CustomEnum {
    Value(u8),
}

fn format_custom_enum(error: &CustomEnum, formatter: &mut std::fmt::Formatter<'_>) -> std::fmt::Result {
    match error {
        &CustomEnum::Value(value) => formatter.write_str(&format!("enum custom {value}")),
    }
}

// Written by hand with the body that the derive generates for this type (the
// generated text is checked in the test below); the derive itself is not run
// here, so `to_string` exercises the custom formatter, not generated code.
impl std::fmt::Display for CustomEnum {
    fn fmt(&self, f: &mut std::fmt::Formatter<'_>) -> std::fmt::Result {
        match self {
            &Self::Value(_) => format_custom_enum(self, f),
        }
    }
}

#[test]
fn custom_display_formatter_works_for_enum_variants() {
    let input = DeriveInput {
        ident: ident("CustomEnum", 1),
        generics: no_generics(),
        attrs: vec![],
        data: Data::Enum(vec![RawVariant {
            ident: ident("Value", 2),
            attrs: vec![display_attr("format_custom_enum")],
            fields: Fields::Unnamed(vec![ty("u8")]),
        }]),
    };
    let source = generated(input);

    assert!(source.contains("match self { &Self::Value ( _ ) => format_custom_enum(self, f) }"));
    assert_eq!(CustomEnum::Value(8).to_string(), "enum custom 8");
}

#[test]
fn static_message_renders_exactly() {
    let source = generated(structure("Static", no_generics(), vec![format_attr("static message", vec![])], Fields::Unit));

    assert_eq!(
        source,
        "#[automatically_derived] impl  ::core::fmt::Display for Static  {  fn fmt(&self, f: &mut ::core::fmt::Formatter<'_>) -> ::core::fmt::Result { f.write_str(\"static message\") } } #[automatically_derived] impl  ::core::error::Error for Static  where Self: ::core::fmt::Debug + ::core::fmt::Display {  }"
    );
}

#[test]
fn literal_quotes_and_backslashes_are_escaped() {
    let source = generated(structure("Quoted", no_generics(), vec![format_attr("say \"hi\" \\ bye", vec![])], Fields::Unit));

    assert!(source.contains("f.write_str(\"say \\\"hi\\\" \\\\ bye\")"));
}

#[test]
fn generation_options_select_inline_and_root() {
    let source = generated(structure(
        "StdError",
        no_generics(),
        vec![
            keyword_attr("import", Some(RawContent::Path(Path::new(":: std", sp(22))))),
            keyword_attr("inline", Some(RawContent::Ident(ident("never", 23)))),
            format_attr("standard error", vec![]),
        ],
        Fields::Unit,
    ));

    assert!(source.contains("impl  :: std::fmt::Display for StdError"));
    assert!(source.contains("{ #[inline(never)] fn fmt(&self, f: &mut :: std::fmt::Formatter<'_>)"));
    assert!(source.contains("where Self: :: std::fmt::Debug + :: std::fmt::Display"));
}

#[test]
fn bare_inline_emits_neutral_attribute() {
    let source = generated(structure(
        "Neutral",
        no_generics(),
        vec![keyword_attr("inline", None), format_attr("neutral", vec![])],
        Fields::Unit,
    ));

    assert!(source.contains("{ #[inline] fn fmt("));
}

#[test]
fn tuple_source_index_literal_is_read() {
    let source = generated(structure(
        "Indexed",
        no_generics(),
        vec![format_attr("indexed", vec![]), keyword_attr("source", Some(RawContent::Int(LitInt::new("1", sp(24)))))],
        Fields::Unnamed(vec![ty("u8"), ty("Inner")]),
    ));

    assert!(source.contains("fn source(&self) -> Option<&(dyn ::core::error::Error + 'static)> { let &Self ( _, ref _1 ) = self; Some(_1) }"));
    assert!(source.contains("Inner: ::core::error::Error + 'static"));
}

#[test]
fn non_ascii_fill_characters_are_copied_unchanged() {
    let source = generated(structure(
        "Filled",
        no_generics(),
        vec![format_attr("{value:é>width$}", vec![])],
        named(vec![("value", ty("u8")), ("width", ty("usize"))]),
    ));

    assert!(source.contains("::core::write!(f, \"{value:é>width$}\", )"));
    assert!(source.contains("let &Self { ref value, ref width, .. } = self;"));

    let (value, width) = (&7_u8, &4_usize);
    assert_eq!(format!("{value:é>width$}"), "ééé7");
}

#[test]
fn bindings_are_selected_once_in_first_capture_order() {
    let source = generated(structure(
        "Repeated",
        no_generics(),
        vec![format_attr("{b} {a} {b:?} {a:>b$}", vec![])],
        named(vec![("a", ty("usize")), ("b", ty("usize")), ("c", ty("u8"))]),
    ));

    assert!(source.contains("let &Self { ref b, ref a, .. } = self;"));
    assert!(!source.contains("ref c"));
}

#[test]
fn width_reference_is_bound_at_its_first_reference() {
    let source = generated(structure(
        "Padded",
        no_generics(),
        vec![format_attr("{a:>c$} {b}", vec![])],
        named(vec![("a", ty("usize")), ("b", ty("usize")), ("c", ty("usize")), ("d", ty("u8"))]),
    ));

    assert!(source.contains("let &Self { ref a, ref c, ref b, .. } = self;"));
    assert!(!source.contains("ref d"));
}
