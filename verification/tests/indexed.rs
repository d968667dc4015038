use fack_codegen::ast::{Generics, Ident, Span, Type};
use fack_codegen::indexed::{
    ErrorSelf, FieldId, FieldRef, Fields, ForwardSource, Inline, InlineOptions, Shape, Source, SourceShape, Validated,
};

fn sp(id: usize) -> Span {
    Span::new(id)
}

fn ident(text: &str) -> Ident {
    Ident::new(text, sp(7))
}

fn inner() -> Type {
    Type::path("Inner", "Inner", None, sp(1))
}

#[test]
fn field_ids_round_trip_positions() {
    let id = FieldId::from_index(3);
    assert_eq!(id.index(), 3);
    assert_eq!(FieldId::from_index(0), FieldId(0));
}

#[test]
fn field_ids_order_by_position() {
    let first = FieldId::from_index(1);
    let second = FieldId::from_index(4);
    assert!(first < second);
    assert_eq!(first.cmp(&second), first.index().cmp(&second.index()));
    assert_eq!(second.cmp(&first), std::cmp::Ordering::Greater);
    assert_eq!(first.cmp(&FieldId(1)), std::cmp::Ordering::Equal);
}

#[test]
fn named_collections_resolve_by_first_name() {
    let fields = Fields::named_fields(vec![ident("first"), ident("second"), ident("second")], vec![inner(), inner(), inner()]);

    assert_eq!(fields.shape(), Shape::Named);
    assert_eq!(fields.len(), 3);
    assert_eq!(fields.named(&ident("second")).expect("declared").index(), 1);
    let missing = fields.named(&ident("third")).err().expect("unknown");
    assert_eq!(missing.diagnostics()[0].message, "unknown named field");
    let positional = fields.indexed(0, sp(9)).err().expect("named fields reject positions");
    assert_eq!(positional.diagnostics()[0].message, "indexed field reference used with named fields");
    assert_eq!(positional.diagnostics()[0].span, sp(9));
    assert_eq!(fields.name(FieldId(0)).map(|n| n.text.clone()), Some("first".to_string()));
}

#[test]
fn tuple_collections_resolve_by_position() {
    let fields = Fields::unnamed_fields(vec![inner(), Type::opaque("u8", sp(2))]);

    assert_eq!(fields.shape(), Shape::Unnamed);
    assert_eq!(fields.resolve(FieldRef::Indexed(1), sp(3)).expect("in bounds"), FieldId(1));
    assert_eq!(fields.ty(FieldId(1)).text, "u8");
    let beyond = fields.resolve(FieldRef::Indexed(2), sp(3)).err().expect("out of bounds");
    assert_eq!(beyond.diagnostics()[0].message, "tuple field index is out of bounds");
    let by_name = fields.resolve(FieldRef::Named(ident("x")), sp(3)).err().expect("tuple fields reject names");
    assert_eq!(by_name.diagnostics()[0].message, "named field reference used with tuple fields");
    assert!(fields.sole(sp(4)).is_err());
}

#[test]
fn unit_collections_have_no_fields() {
    let fields = Fields::unit();
    assert_eq!(fields.shape(), Shape::Unit);
    let error = fields.sole(sp(4)).err().expect("no sole field");
    assert_eq!(error.diagnostics()[0].message, "expected exactly one field");
    assert_eq!(error.diagnostics()[0].span, sp(4));
    let by_index = fields.indexed(0, sp(5)).err().expect("unit rejects positions");
    assert_eq!(by_index.diagnostics()[0].message, "unit fields cannot contain a field reference");
}

#[test]
fn source_shapes_unwrap_supported_containers() {
    let boxed = Type::path("Box < Inner >", "Box", Some(inner()), sp(5));
    let optional_boxed = Type::path("Option < Box < Inner > >", "Option", Some(Type::path("Box < Inner >", "Box", Some(inner()), sp(5))), sp(6));
    let optional = Type::path("Option < Inner >", "Option", Some(inner()), sp(6));

    let (shape, error_type) = SourceShape::inspect(&boxed);
    assert_eq!((shape, error_type.text.as_str()), (SourceShape::Boxed, "Inner"));
    let (shape, error_type) = SourceShape::inspect(&optional_boxed);
    assert_eq!((shape, error_type.text.as_str()), (SourceShape::OptionalBoxed, "Inner"));
    let (shape, error_type) = SourceShape::inspect(&optional);
    assert_eq!((shape, error_type.text.as_str()), (SourceShape::Optional, "Inner"));
    let (shape, error_type) = SourceShape::inspect(&inner());
    assert_eq!((shape, error_type.text.as_str()), (SourceShape::Direct, "Inner"));

    let fields = Fields::unnamed_fields(vec![optional]);
    let source = Source::new(&fields, FieldId(0));
    assert_eq!(source.field, FieldId(0));
    assert_eq!(source.shape, SourceShape::Optional);
    assert_eq!(source.error_type.text, "Inner");
}

#[test]
fn inline_options_parse_their_three_strategies() {
    assert_eq!(Inline::default(), Inline::Neutral);
    let options: InlineOptions = Inline::parse(&ident("always")).expect("known strategy");
    assert_eq!(options, Inline::Always);
    assert_eq!(Inline::parse(&ident("never")).expect("known strategy"), Inline::Never);
    assert_eq!(Inline::parse(&ident("neutral")).expect("known strategy"), Inline::Neutral);
    let error = Inline::parse(&ident("sometimes")).err().expect("unknown strategy");
    assert_eq!(error.diagnostics()[0].message, "expected `neutral`, `never` or `always`");
}

#[test]
fn forwarding_accepts_only_forward() {
    assert_eq!(ForwardSource::default(), ForwardSource::No);
    assert_eq!(ForwardSource::parse(&ident("forward")).expect("forward"), ForwardSource::Yes);
    let error = ForwardSource::parse(&ident("backward")).err().expect("only forward");
    assert_eq!(error.diagnostics()[0].message, "expected just `source`, no internal further parameters");
}

#[test]
fn error_self_adds_the_supertrait_bound() {
    let mut generics = Generics::new("< T >", "< T >", None);
    ErrorSelf.contribute(&mut generics, &"::core".chars().collect());
    assert_eq!(generics.where_clause, Some(vec!["Self: ::core::fmt::Debug + ::core::fmt::Display".to_string()]));
}

#[test]
fn validated_values_are_returned_unchanged() {
    let proof = Validated::new(41_u8);
    assert_eq!(proof.into_inner(), 41);
}
