use std::error::Error as StdError;
use std::fmt;

use fack_codegen::ast::{Generics, Ident, LitInt, LitStr, Span, Type};
use fack_codegen::input::attribute::{RawAttribute, RawContent, RawParam};
use fack_codegen::input::field::{Fields, NamedField};
use fack_codegen::input::format::Format;
use fack_codegen::input::target::{Data, DeriveInput, RawVariant};
use fack_codegen::Target;

fn sp(id: usize) -> Span {
    Span::new(id)
}

fn ident(text: &str, id: usize) -> Ident {
    Ident::new(text, sp(id))
}

fn inner_ty() -> Type {
    Type::path("Inner", "Inner", None, sp(90))
}

fn boxed(inner: Type, text: &str) -> Type {
    Type::path(text, "Box", Some(inner), sp(91))
}

fn optional(inner: Type, text: &str) -> Type {
    Type::path(text, "Option", Some(inner), sp(92))
}

fn format_attr(literal: &str) -> RawAttribute {
    RawAttribute { is_error: true, arguments: Ok(RawParam::Format(Format::new(LitStr::new(literal, sp(10)), vec![]))) }
}

fn keyword_attr(keyword: &str, content: Option<RawContent>) -> RawAttribute {
    RawAttribute { is_error: true, arguments: Ok(RawParam::Keyword { keyword: ident(keyword, 20), after: content.as_ref().map(|_| sp(25)), content, rest: None, end: sp(0) }) }
}

fn named_ref(name: &str) -> Option<RawContent> {
    Some(RawContent::Ident(ident(name, 21)))
}

fn index_ref(digits: &str) -> Option<RawContent> {
    Some(RawContent::Int(LitInt::new(digits, sp(22))))
}

fn named(fields: Vec<(&str, Type)>) -> Fields {
    Fields::Named(fields.into_iter().enumerate().map(|(i, (name, ty))| NamedField::new(ident(name, 30 + i), ty)).collect())
}

fn generated(name: &str, generics: Generics, attrs: Vec<RawAttribute>, data: Data) -> String {
    let input = DeriveInput { ident: ident(name, 1), generics, attrs, data };
    match Target::input(input).and_then(Target::validate) {
        Ok(target) => target.source(),
        Err(error) => panic!("generation failed: {:?}", error),
    }
}

fn plain() -> Generics {
    Generics::new("", "", None)
}

// The `Display`, `Error` and `From` impls below are written by hand with the
// bodies that the derive generates for these types, and each test checks that
// generated text. The derive itself is not run here: the runtime assertions
// exercise these hand-written impls, not generated code.

#[derive(Debug)]
struct Inner;

impl fmt::Display for Inner {
    fn fmt(&self, f: &mut fmt::Formatter<'_>) -> fmt::Result {
        f.write_str("inner failure")
    }
}

impl StdError for Inner {}

#[derive(Debug)]
struct StructSource {
    inner: Inner,
}

impl fmt::Display for StructSource {
    fn fmt(&self, f: &mut fmt::Formatter<'_>) -> fmt::Result {
        f.write_str("outer failure")
    }
}

impl StdError for StructSource {
    fn source(&self) -> Option<&(dyn StdError + 'static)> {
        let &Self { ref inner, .. } = self;
        Some(inner)
    }
}

#[test]
fn structure_source_is_selected_field() {
    let source = generated(
        "StructSource",
        plain(),
        vec![format_attr("outer failure"), keyword_attr("source", named_ref("inner"))],
        Data::Struct(named(vec![("inner", inner_ty())])),
    );
    assert!(source.contains("fn source(&self) -> Option<&(dyn ::core::error::Error + 'static)> { let &Self { ref inner, .. } = self; Some(inner) }"));

    let error = StructSource { inner: Inner };
    let cause = error.source().expect("declared source must exist");
    assert_eq!(cause.to_string(), "inner failure");
}

#[derive(Debug)]
enum EnumSource {
    Named { inner: Inner, _code: u8 },
    Tuple(Inner, ()),
}

impl fmt::Display for EnumSource {
    fn fmt(&self, f: &mut fmt::Formatter<'_>) -> fmt::Result {
        match self {
            &Self::Named { .. } => f.write_str("named failure"),
            &Self::Tuple(_, _) => f.write_str("tuple failure"),
        }
    }
}

impl StdError for EnumSource {
    fn source(&self) -> Option<&(dyn StdError + 'static)> {
        match self {
            &Self::Named { ref inner, .. } => Some(inner),
            &Self::Tuple(ref _0, _) => Some(_0),
        }
    }
}

#[test]
fn enum_sources_are_selected_bindings() {
    let source = generated(
        "EnumSource",
        plain(),
        vec![],
        Data::Enum(vec![
            RawVariant {
                ident: ident("Named", 2),
                attrs: vec![format_attr("named failure"), keyword_attr("source", named_ref("inner"))],
                fields: named(vec![("inner", inner_ty()), ("_code", Type::opaque("u8", sp(93)))]),
            },
            RawVariant {
                ident: ident("Tuple", 3),
                attrs: vec![format_attr("tuple failure"), keyword_attr("source", index_ref("0"))],
                fields: Fields::Unnamed(vec![inner_ty(), Type::opaque("()", sp(94))]),
            },
        ]),
    );
    assert!(source.contains("match self { &Self::Named { ref inner, .. } => Some(inner), &Self::Tuple ( ref _0, _ ) => Some(_0) }"));

    let named = EnumSource::Named { inner: Inner, _code: 7 };
    let tuple = EnumSource::Tuple(Inner, ());
    assert_eq!(named.source().expect("named source must exist").to_string(), "inner failure");
    assert_eq!(tuple.source().expect("tuple source must exist").to_string(), "inner failure");
}

#[derive(Debug)]
struct StructFrom(Inner);

impl From<Inner> for StructFrom {
    fn from(value: Inner) -> Self {
        Self(value)
    }
}

impl fmt::Display for StructFrom {
    fn fmt(&self, f: &mut fmt::Formatter<'_>) -> fmt::Result {
        f.write_str("from struct")
    }
}

impl StdError for StructFrom {
    fn source(&self) -> Option<&(dyn StdError + 'static)> {
        let &Self(ref _0) = self;
        Some(_0)
    }
}

#[test]
fn from_implies_the_converted_field_is_the_source() {
    let structure = generated(
        "StructFrom",
        plain(),
        vec![format_attr("from struct"), keyword_attr("from", None)],
        Data::Struct(Fields::Unnamed(vec![inner_ty()])),
    );
    let enumeration = generated(
        "EnumFrom",
        plain(),
        vec![],
        Data::Enum(vec![RawVariant {
            ident: ident("Inner", 2),
            attrs: vec![format_attr("from enum"), keyword_attr("from", None)],
            fields: Fields::Unnamed(vec![inner_ty()]),
        }]),
    );
    assert!(structure.contains("From<Inner> for StructFrom  {  fn from(value: Inner) -> Self { Self(value) } }"));
    assert!(structure.contains("let &Self ( ref _0 ) = self; Some(_0) }"));
    assert!(enumeration.contains("fn from(value: Inner) -> Self { Self::Inner(value) }"));
    assert!(enumeration.contains("&Self::Inner ( ref _0 ) => Some(_0)"));

    let error = StructFrom::from(Inner);
    assert_eq!(error.source().expect("from source must exist").to_string(), "inner failure");
}

#[derive(Debug)]
struct Transparent(Inner);

impl fmt::Display for Transparent {
    fn fmt(&self, f: &mut fmt::Formatter<'_>) -> fmt::Result {
        let &Self(ref _0) = self;
        fmt::Display::fmt(_0, f)
    }
}

impl StdError for Transparent {
    fn source(&self) -> Option<&(dyn StdError + 'static)> {
        let &Self(ref _0) = self;
        StdError::source(_0)
    }
}

#[test]
fn transparent_forwards_display_and_inner_source() {
    let source = generated(
        "Transparent",
        plain(),
        vec![keyword_attr("transparent", index_ref("0"))],
        Data::Struct(Fields::Unnamed(vec![inner_ty()])),
    );
    assert!(source.contains("let &Self ( ref _0 ) = self; ::core::fmt::Display::fmt(_0, f)"));
    assert!(source.contains("let &Self ( ref _0 ) = self; ::core::error::Error::source(_0) }"));
    assert!(source.contains("Inner: ::core::fmt::Display"));

    let error = Transparent(Inner);
    assert_eq!(error.to_string(), "inner failure");
    assert!(error.source().is_none());
}

#[derive(Debug)]
struct TransparentRoot;

impl fmt::Display for TransparentRoot {
    fn fmt(&self, f: &mut fmt::Formatter<'_>) -> fmt::Result {
        f.write_str("transparent root failure")
    }
}

impl StdError for TransparentRoot {}

#[derive(Debug)]
struct TransparentInner {
    root: TransparentRoot,
}

impl fmt::Display for TransparentInner {
    fn fmt(&self, f: &mut fmt::Formatter<'_>) -> fmt::Result {
        f.write_str("transparent inner failure")
    }
}

impl StdError for TransparentInner {
    fn source(&self) -> Option<&(dyn StdError + 'static)> {
        let &Self { ref root, .. } = self;
        Some(root)
    }
}

#[derive(Debug)]
struct TransparentContextValue;

#[derive(Debug)]
struct TransparentContext {
    _context: TransparentContextValue,
    inner: TransparentInner,
}

impl fmt::Display for TransparentContext {
    fn fmt(&self, f: &mut fmt::Formatter<'_>) -> fmt::Result {
        let &Self { ref inner, .. } = self;
        fmt::Display::fmt(inner, f)
    }
}

impl StdError for TransparentContext {
    fn source(&self) -> Option<&(dyn StdError + 'static)> {
        let &Self { ref inner, .. } = self;
        StdError::source(inner)
    }
}

#[derive(Debug)]
enum TransparentEnum {
    Context { _context: TransparentContextValue, inner: TransparentInner },
}

impl fmt::Display for TransparentEnum {
    fn fmt(&self, f: &mut fmt::Formatter<'_>) -> fmt::Result {
        match self {
            &Self::Context { ref inner, .. } => fmt::Display::fmt(inner, f),
        }
    }
}

impl StdError for TransparentEnum {
    fn source(&self) -> Option<&(dyn StdError + 'static)> {
        match self {
            &Self::Context { ref inner, .. } => StdError::source(inner),
        }
    }
}

#[test]
fn transparent_selected_field_allows_additional_context() {
    let context_ty = || Type::path("TransparentContextValue", "TransparentContextValue", None, sp(95));
    let inner_ty = || Type::path("TransparentInner", "TransparentInner", None, sp(96));
    let structure_source = generated(
        "TransparentContext",
        plain(),
        vec![keyword_attr("transparent", named_ref("inner"))],
        Data::Struct(named(vec![("_context", context_ty()), ("inner", inner_ty())])),
    );
    let enumeration_source = generated(
        "TransparentEnum",
        plain(),
        vec![],
        Data::Enum(vec![RawVariant {
            ident: ident("Context", 2),
            attrs: vec![keyword_attr("transparent", named_ref("inner"))],
            fields: named(vec![("_context", context_ty()), ("inner", inner_ty())]),
        }]),
    );
    assert!(structure_source.contains("let &Self { ref inner, .. } = self; ::core::fmt::Display::fmt(inner, f)"));
    assert!(structure_source.contains("let &Self { ref inner, .. } = self; ::core::error::Error::source(inner) }"));
    assert!(!structure_source.contains("TransparentContextValue:"));
    assert!(enumeration_source.contains("&Self::Context { ref inner, .. } => ::core::fmt::Display::fmt(inner, f)"));
    assert!(enumeration_source.contains("&Self::Context { ref inner, .. } => ::core::error::Error::source(inner)"));

    let structure = TransparentContext {
        _context: TransparentContextValue,
        inner: TransparentInner { root: TransparentRoot },
    };
    let enumeration = TransparentEnum::Context {
        _context: TransparentContextValue,
        inner: TransparentInner { root: TransparentRoot },
    };

    assert_eq!(structure.to_string(), "transparent inner failure");
    assert_eq!(enumeration.to_string(), "transparent inner failure");
    assert_eq!(structure.source().expect("transparent structure source").to_string(), "transparent root failure");
    assert_eq!(enumeration.source().expect("transparent enum source").to_string(), "transparent root failure");
}

#[test]
fn common_source_container_shapes_are_supported() {
    let boxed_source = generated(
        "BoxedSource",
        plain(),
        vec![format_attr("boxed source"), keyword_attr("source", named_ref("inner"))],
        Data::Struct(named(vec![("inner", boxed(inner_ty(), "Box < Inner >"))])),
    );
    let optional_source = generated(
        "OptionalSource",
        plain(),
        vec![format_attr("optional source"), keyword_attr("source", named_ref("inner"))],
        Data::Struct(named(vec![("inner", optional(inner_ty(), "Option < Inner >"))])),
    );
    let optional_boxed_source = generated(
        "OptionalBoxedSource",
        plain(),
        vec![format_attr("optional boxed source"), keyword_attr("source", named_ref("inner"))],
        Data::Struct(named(vec![("inner", optional(boxed(inner_ty(), "Box < Inner >"), "Option < Box < Inner > >"))])),
    );
    let dynamic_source = generated(
        "DynamicSource",
        plain(),
        vec![format_attr("dynamic source"), keyword_attr("source", named_ref("inner"))],
        Data::Struct(named(vec![("inner", boxed(Type::trait_object("dyn Error + Send + Sync", sp(97)), "Box < dyn Error + Send + Sync >"))])),
    );

    assert!(boxed_source.contains("Some(&**inner)"));
    assert!(boxed_source.contains("Inner: ::core::error::Error + 'static"));
    assert!(optional_source.contains("inner.as_ref().map(|source| source as &(dyn ::core::error::Error + 'static))"));
    assert!(optional_boxed_source.contains("inner.as_ref().map(|source| &**source as &(dyn ::core::error::Error + 'static))"));
    assert!(dynamic_source.contains("Some(&**inner)"));
    assert!(!dynamic_source.contains("dyn Error + Send + Sync:"));

    let boxed: Box<Inner> = Box::new(Inner);
    let optional: Option<Inner> = Some(Inner);
    let absent: Option<Inner> = None;
    let optional_boxed: Option<Box<Inner>> = Some(Box::new(Inner));
    let dynamic: Box<dyn StdError + Send + Sync> = Box::new(Inner);
    let boxed_cause: Option<&(dyn StdError + 'static)> = Some(&*boxed);
    let optional_cause = optional.as_ref().map(|source| source as &(dyn StdError + 'static));
    let absent_cause = absent.as_ref().map(|source| source as &(dyn StdError + 'static));
    let optional_boxed_cause = optional_boxed.as_ref().map(|source| &**source as &(dyn StdError + 'static));
    let dynamic_cause: Option<&(dyn StdError + 'static)> = Some(&*dynamic);

    assert_eq!(boxed_cause.expect("boxed source").to_string(), "inner failure");
    assert_eq!(optional_cause.expect("optional source").to_string(), "inner failure");
    assert!(absent_cause.is_none());
    assert_eq!(optional_boxed_cause.expect("optional boxed source").to_string(), "inner failure");
    assert_eq!(dynamic_cause.expect("dynamic source").to_string(), "inner failure");
}

#[test]
fn generic_from_adds_the_source_bound_to_only_the_error_impl() {
    let source = generated(
        "GenericFrom",
        Generics::new("< E >", "< E >", None),
        vec![format_attr("generic from"), keyword_attr("from", None)],
        Data::Struct(Fields::Unnamed(vec![Type::path("E", "E", None, sp(98))])),
    );
    let conversion_end = source.find("::core::fmt::Display for").expect("display impl follows the conversion");
    let error_start = source.find("::core::error::Error for").expect("error impl present");

    assert!(!source[..conversion_end].contains("E: ::core::error::Error"));
    assert!(source[error_start..].contains("E: ::core::error::Error + 'static"));
    assert!(source.contains("impl < E > From<E> for GenericFrom < E > {  fn from(value: E) -> Self { Self(value) } }"));

    let error = GenericFrom::from(Inner);
    assert_eq!(error.source().expect("generic source").to_string(), "inner failure");
}

#[derive(Debug)]
struct GenericFrom<E>(E);

impl<E> From<E> for GenericFrom<E> {
    fn from(value: E) -> Self {
        Self(value)
    }
}

impl<E> fmt::Display for GenericFrom<E> {
    fn fmt(&self, f: &mut fmt::Formatter<'_>) -> fmt::Result {
        f.write_str("generic from")
    }
}

impl<E> StdError for GenericFrom<E>
where
    Self: fmt::Debug + fmt::Display,
    E: StdError + 'static,
{
    fn source(&self) -> Option<&(dyn StdError + 'static)> {
        let &Self(ref _0) = self;
        Some(_0)
    }
}
