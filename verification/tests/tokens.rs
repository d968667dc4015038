use fack_codegen::ast::{Error, Ident, Span};
use fack_codegen::input::attribute::{Param, RawContent, RawParam};
use fack_codegen::input::tokens::{literal_token, read_argument, read_param, render, Delimiter, RawToken};

fn sp(id: usize) -> Span {
    Span::new(id)
}

fn word(text: &str, id: usize) -> RawToken {
    RawToken::Ident(Ident::new(text, sp(id)))
}

fn punct(ch: char, id: usize) -> RawToken {
    RawToken::Punct { ch, joint: false, span: sp(id) }
}

fn joint(ch: char, id: usize) -> RawToken {
    RawToken::Punct { ch, joint: true, span: sp(id) }
}

fn string(value: &str, id: usize) -> RawToken {
    RawToken::Literal { text: format!("{value:?}"), string: Some(value.to_string()), integer: None, span: sp(id) }
}

fn integer(digits: &str, id: usize) -> RawToken {
    RawToken::Literal { text: digits.to_string(), string: None, integer: Some(digits.to_string()), span: sp(id) }
}

fn parens(tokens: Vec<RawToken>, text: &str, id: usize) -> RawToken {
    RawToken::Group { delimiter: Delimiter::Parenthesis, text: text.to_string(), tokens, span: sp(id) }
}

fn failure(error: &Error) -> Vec<(Span, String)> {
    error.diagnostics().iter().map(|d| (d.span, d.message.clone())).collect()
}

#[test]
fn format_literal_alone_has_no_arguments() {
    let param = read_param(&vec![string("failed {0}", 1)], sp(0)).unwrap();
    match param {
        RawParam::Format(format) => {
            assert_eq!(format.literal.value, "failed {0}");
            assert_eq!(format.literal.span, sp(1));
            assert!(format.arguments.is_empty());
        }
        _ => panic!("expected a format"),
    }
}

#[test]
fn format_arguments_are_split_at_commas_and_named_by_ident_eq() {
    let tokens = vec![
        string("{} {name}", 1),
        punct(',', 2),
        word("a", 3),
        punct('.', 4),
        word("len", 5),
        parens(vec![], "()", 6),
        punct(',', 7),
        word("name", 8),
        punct('=', 9),
        word("b", 10),
        punct('+', 11),
        integer("1", 12),
        punct(',', 13),
    ];
    let param = read_param(&tokens, sp(0)).unwrap();
    match param {
        RawParam::Format(format) => {
            assert_eq!(format.arguments.len(), 2);
            assert!(format.arguments[0].name.is_none());
            assert_eq!(format.arguments[0].expression, "a . len ()");
            let name = format.arguments[1].name.as_ref().unwrap();
            assert_eq!(name.text, "name");
            assert_eq!(name.span, sp(8));
            assert_eq!(format.arguments[1].expression, "b + 1");
        }
        _ => panic!("expected a format"),
    }
}

#[test]
fn double_equals_does_not_name_an_argument() {
    let tokens = vec![string("{}", 1), punct(',', 2), word("a", 3), joint('=', 4), punct('=', 5), word("b", 6)];
    match read_param(&tokens, sp(0)).unwrap() {
        RawParam::Format(format) => {
            assert_eq!(format.arguments.len(), 1);
            assert!(format.arguments[0].name.is_none());
            assert_eq!(format.arguments[0].expression, "a == b");
        }
        _ => panic!("expected a format"),
    }
}

#[test]
fn token_after_format_literal_without_comma_is_unexpected() {
    let error = read_param(&vec![string("x", 1), word("a", 2)], sp(0)).unwrap_err();
    assert_eq!(failure(&error), vec![(sp(2), "unexpected token".to_string())]);
}

#[test]
fn refused_expression_is_reported_at_its_first_token() {
    let tokens = vec![string("{}", 1), punct(',', 2), integer("1", 3), punct('+', 4)];
    let error = read_param(&tokens, sp(0)).unwrap_err();
    let diagnostics = failure(&error);
    assert_eq!(diagnostics.len(), 1);
    assert_eq!(diagnostics[0].0, sp(3));
}

#[test]
fn empty_argument_between_commas_is_refused_at_the_comma() {
    let tokens = vec![string("{}", 1), punct(',', 2), punct(',', 3), word("a", 4)];
    let error = read_param(&tokens, sp(0)).unwrap_err();
    let diagnostics = failure(&error);
    assert_eq!(diagnostics.len(), 1);
    assert_eq!(diagnostics[0].0, sp(2));
}

#[test]
fn read_argument_reports_the_given_refusal() {
    let tokens = vec![string("{}", 1), punct(',', 2), word("n", 3), punct('=', 4), word("x", 5)];
    let error = read_argument(&tokens, 2, 5, Some("bad expression".to_string())).unwrap_err();
    assert_eq!(failure(&error), vec![(sp(5), "bad expression".to_string())]);
    let argument = read_argument(&tokens, 2, 5, None).unwrap();
    assert_eq!(argument.name.as_ref().unwrap().text, "n");
    assert_eq!(argument.expression, "x");
}

#[test]
fn keyword_reads_identifier_content() {
    let tokens = vec![word("source", 1), parens(vec![word("inner", 3)], "(inner)", 2)];
    match read_param(&tokens, sp(0)).unwrap() {
        RawParam::Keyword { keyword, content, rest, .. } => {
            assert_eq!(keyword.text, "source");
            assert_eq!(keyword.span, sp(1));
            match content {
                Some(RawContent::Ident(i)) => {
                    assert_eq!(i.text, "inner");
                    assert_eq!(i.span, sp(3));
                }
                _ => panic!("expected an identifier"),
            }
            assert!(rest.is_none());
        }
        _ => panic!("expected a keyword"),
    }
}

#[test]
fn keyword_reads_integer_content() {
    let tokens = vec![word("transparent", 1), parens(vec![integer("0", 3)], "(0)", 2)];
    match read_param(&tokens, sp(0)).unwrap() {
        RawParam::Keyword { content: Some(RawContent::Int(literal)), .. } => {
            assert_eq!(literal.digits, "0");
            assert_eq!(literal.span, sp(3));
        }
        _ => panic!("expected an integer"),
    }
}

#[test]
fn keyword_reads_path_content_with_leading_colons() {
    let inner = vec![joint(':', 3), punct(':', 4), word("std", 5), joint(':', 6), punct(':', 7), word("fmt", 8)];
    let tokens = vec![word("import", 1), parens(inner, "(:: std :: fmt)", 2)];
    match read_param(&tokens, sp(0)).unwrap() {
        RawParam::Keyword { content: Some(RawContent::Path(path)), .. } => {
            assert_eq!(path.text, ":: std :: fmt");
            assert_eq!(path.span, Span { first: 3, last: 8 });
        }
        _ => panic!("expected a path"),
    }
}

#[test]
fn keyword_content_that_is_no_path_is_other() {
    let tokens = vec![word("source", 1), parens(vec![word("a", 3), punct('+', 4)], "(a +)", 2)];
    match read_param(&tokens, sp(0)).unwrap() {
        RawParam::Keyword { content: Some(RawContent::Other(span)), .. } => assert_eq!(span, sp(3)),
        _ => panic!("expected other content"),
    }
    let empty = vec![word("source", 1), parens(vec![], "()", 2)];
    match read_param(&empty, sp(0)).unwrap() {
        RawParam::Keyword { content: Some(RawContent::Empty(span)), .. } => assert_eq!(span, sp(2)),
        _ => panic!("expected empty content"),
    }
}

#[test]
fn keyword_without_parentheses_has_no_content() {
    match read_param(&vec![word("from", 1)], sp(0)).unwrap() {
        RawParam::Keyword { keyword, content, rest, .. } => {
            assert_eq!(keyword.text, "from");
            assert!(content.is_none());
            assert!(rest.is_none());
        }
        _ => panic!("expected a keyword"),
    }
}

#[test]
fn token_after_keyword_is_unexpected() {
    let raw = read_param(&vec![word("from", 1), word("x", 2)], sp(0)).unwrap();
    let error = Param::parse(raw).unwrap_err();
    assert_eq!(failure(&error), vec![(sp(2), "unexpected token".to_string())]);
    let tokens = vec![word("source", 1), parens(vec![word("a", 3)], "(a)", 2), punct(',', 4)];
    let raw = read_param(&tokens, sp(0)).unwrap();
    match &raw {
        RawParam::Keyword { rest, .. } => assert_eq!(*rest, Some(sp(4))),
        _ => panic!("expected a keyword"),
    }
    let error = Param::parse(raw).unwrap_err();
    assert_eq!(failure(&error), vec![(sp(4), "unexpected token".to_string())]);
}

#[test]
fn unknown_keyword_is_reported_before_tokens_after_it() {
    let raw = read_param(&vec![word("bogus", 1), word("x", 2)], sp(0)).unwrap();
    let error = Param::parse(raw).unwrap_err();
    assert_eq!(
        failure(&error),
        vec![(sp(1), "expected `inline`, `import`, `source`, `transparent`, `from`, or `display`".to_string())]
    );
}

#[test]
fn missing_parentheses_are_reported_at_the_token_in_their_place() {
    let raw = read_param(&vec![word("source", 1), word("x", 2)], sp(0)).unwrap();
    let error = Param::parse(raw).unwrap_err();
    assert_eq!(failure(&error), vec![(sp(2), "expected parentheses".to_string())]);
    let raw = read_param(&vec![word("display", 1)], sp(9)).unwrap();
    let error = Param::parse(raw).unwrap_err();
    assert_eq!(failure(&error), vec![(sp(9), "unexpected end of input, expected parentheses".to_string())]);
}

#[test]
fn neither_literal_nor_identifier_is_other() {
    match read_param(&vec![integer("42", 1)], sp(0)).unwrap() {
        RawParam::Other(span) => assert_eq!(span, sp(1)),
        _ => panic!("expected other"),
    }
    match read_param(&vec![word("fn", 1)], sp(0)).unwrap() {
        RawParam::Other(span) => assert_eq!(span, sp(1)),
        _ => panic!("expected other"),
    }
    match read_param(&vec![], sp(7)).unwrap() {
        RawParam::Empty(span) => assert_eq!(span, sp(7)),
        _ => panic!("expected nothing"),
    }
}

#[test]
fn render_joins_joint_punctuation() {
    let tokens = vec![word("a", 1), joint(':', 2), punct(':', 3), word("b", 4), punct('!', 5)];
    assert_eq!(render(&tokens, 0, 5), "a :: b !");
    assert_eq!(render(&tokens, 1, 3), "::");
    assert_eq!(render(&tokens, 2, 2), "");
}

#[test]
fn closure_parameters_keep_their_commas() {
    let tokens = vec![
        string("{} {}", 1),
        punct(',', 2),
        punct('|', 3),
        word("a", 4),
        punct(',', 5),
        word("b", 6),
        punct('|', 7),
        word("a", 8),
        punct(',', 9),
        word("c", 10),
    ];
    match read_param(&tokens, sp(0)).unwrap() {
        RawParam::Format(format) => {
            assert_eq!(format.arguments.len(), 2);
            assert_eq!(format.arguments[0].expression, "| a , b | a");
            assert_eq!(format.arguments[1].expression, "c");
        }
        _ => panic!("expected a format"),
    }
}

#[test]
fn empty_attribute_reports_the_end_of_input() {
    let error = Param::parse(read_param(&vec![], sp(7)).unwrap()).unwrap_err();
    assert_eq!(failure(&error), vec![(sp(7), "unexpected end of input, expected string literal or identifier".to_string())]);
}

#[test]
fn keyword_where_an_identifier_is_expected_is_named() {
    let tokens = vec![word("inline", 1), parens(vec![word("self", 3)], "(self)", 2)];
    let error = Param::parse(read_param(&tokens, sp(0)).unwrap()).unwrap_err();
    assert_eq!(failure(&error), vec![(sp(3), "expected identifier, found keyword `self`".to_string())]);
    let tokens = vec![word("import", 1), parens(vec![word("fn", 3)], "(fn)", 2)];
    let error = Param::parse(read_param(&tokens, sp(0)).unwrap()).unwrap_err();
    assert_eq!(failure(&error), vec![(sp(3), "expected identifier, found keyword `fn`".to_string())]);
    let tokens = vec![word("import", 1), parens(vec![word("crate", 3)], "(crate)", 2)];
    assert!(Param::parse(read_param(&tokens, sp(0)).unwrap()).is_ok());
}

#[test]
fn empty_parentheses_report_the_end_of_input() {
    let tokens = vec![word("source", 1), parens(vec![], "()", 2)];
    let error = Param::parse(read_param(&tokens, sp(0)).unwrap()).unwrap_err();
    assert_eq!(failure(&error), vec![(sp(2), "unexpected end of input, expected identifier or integer literal".to_string())]);
}

#[test]
fn parentheses_after_from_are_unexpected_at_the_group() {
    let tokens = vec![word("from", 1), parens(vec![word("x", 3)], "(x)", 2)];
    let error = Param::parse(read_param(&tokens, sp(0)).unwrap()).unwrap_err();
    assert_eq!(failure(&error), vec![(sp(2), "unexpected token".to_string())]);
}

#[test]
fn string_literal_tokens_carry_their_value() {
    match literal_token("\"a\\nb \\\"q\\\" \\u{41}\"", sp(1)) {
        RawToken::Literal { text, string, integer, span } => {
            assert_eq!(text, "\"a\\nb \\\"q\\\" \\u{41}\"");
            assert_eq!(string.as_deref(), Some("a\nb \"q\" A"));
            assert!(integer.is_none());
            assert_eq!(span, sp(1));
        }
        _ => panic!("expected a literal"),
    }
}

#[test]
fn integer_literal_tokens_carry_their_decimal_digits() {
    match literal_token("007", sp(2)) {
        RawToken::Literal { string, integer, .. } => {
            assert!(string.is_none());
            assert_eq!(integer.as_deref(), Some("7"));
        }
        _ => panic!("expected a literal"),
    }
    match literal_token("0x10", sp(3)) {
        RawToken::Literal { integer, .. } => assert_eq!(integer.as_deref(), Some("16")),
        _ => panic!("expected a literal"),
    }
}
