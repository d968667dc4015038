//! Rust string and integer literals: the value a literal token denotes, and
//! the calls that write and read such tokens.

use vstd::prelude::*;

use crate::expand::binding::decimal;
use crate::text::{all_digits, digits_value, find, lemma_find};

verus! {

/// Whether `c` is an ASCII hexadecimal digit.
pub open spec fn is_hex(c: char) -> bool {
    ('0' <= c && c <= '9') || ('a' <= c && c <= 'f') || ('A' <= c && c <= 'F')
}

/// The value of the hexadecimal digit `c`.
pub open spec fn hex_digit(c: char) -> nat {
    if '0' <= c && c <= '9' {
        (c as int - '0' as int) as nat
    } else if 'a' <= c && c <= 'f' {
        (c as int - 'a' as int + 10) as nat
    } else {
        (c as int - 'A' as int + 10) as nat
    }
}

/// The value of hexadecimal digits with `_` separators.
pub open spec fn hex_value(s: Seq<char>) -> nat
    decreases s.len(),
{
    if s.len() == 0 {
        0
    } else if s.last() == '_' {
        hex_value(s.drop_last())
    } else {
        hex_value(s.drop_last()) * 16 + hex_digit(s.last())
    }
}

/// The number of digits (not separators) in `s`.
pub open spec fn hex_count(s: Seq<char>) -> nat
    decreases s.len(),
{
    if s.len() == 0 {
        0
    } else if s.last() == '_' {
        hex_count(s.drop_last())
    } else {
        hex_count(s.drop_last()) + 1
    }
}

/// Whether `s` is the inside of a `\u{...}` escape: a hexadecimal digit,
/// then digits and `_` separators, at most six digits in all.
pub open spec fn is_unicode_digits(s: Seq<char>) -> bool {
    &&& s.len() > 0
    &&& is_hex(s[0])
    &&& forall|i: int| 0 <= i < s.len() ==> is_hex(#[trigger] s[i]) || s[i] == '_'
    &&& hex_count(s) <= 6
}

/// Whether `v` is a Unicode scalar value, the value of a `char`.
pub open spec fn is_scalar(v: nat) -> bool {
    v <= 0x10FFFF && !(0xD800 <= v && v <= 0xDFFF)
}

/// `c` followed by the characters of `r`, if any.
pub open spec fn with_first(c: char, r: Option<Seq<char>>) -> Option<Seq<char>> {
    match r {
        Some(v) => Some(seq![c] + v),
        None => None,
    }
}

/// The value that the characters `b` between the quotes of a Rust string
/// literal denote, or `None` when they are not a valid literal body.
/// `skipping` holds right after a backslash that ends a line, where the
/// whitespace that starts the next line is skipped.
///
/// Characters stand for themselves, except `"` (which would end the
/// literal), a carriage return not followed by a line feed (refused; with
/// the line feed it stands for one line feed) and the backslash, which
/// starts an escape: `\n`, `\r`, `\t`, `\\`, `\0`, `\'`, `\"`, `\x` with an
/// octal and a hexadecimal digit, `\u{...}` with up to six hexadecimal
/// digits naming a Unicode scalar value, or a line end.
pub open spec fn body_value(b: Seq<char>, skipping: bool) -> Option<Seq<char>>
    decreases b.len(),
{
    if b.len() == 0 {
        Some(Seq::empty())
    } else if skipping && (b[0] == ' ' || b[0] == '\t' || b[0] == '\n') {
        body_value(b.drop_first(), true)
    } else if skipping && b[0] == '\r' && b.len() >= 2 && b[1] == '\n' {
        body_value(b.skip(2), true)
    } else if b[0] == '"' {
        None
    } else if b[0] == '\r' {
        if b.len() >= 2 && b[1] == '\n' {
            with_first('\n', body_value(b.skip(2), false))
        } else {
            None
        }
    } else if b[0] != '\\' {
        with_first(b[0], body_value(b.drop_first(), false))
    } else if b.len() < 2 {
        None
    } else {
        let e = b[1];
        let rest = b.skip(2);
        if e == 'n' {
            with_first('\n', body_value(rest, false))
        } else if e == 'r' {
            with_first('\r', body_value(rest, false))
        } else if e == 't' {
            with_first('\t', body_value(rest, false))
        } else if e == '\\' {
            with_first('\\', body_value(rest, false))
        } else if e == '0' {
            with_first('\0', body_value(rest, false))
        } else if e == '\'' {
            with_first('\'', body_value(rest, false))
        } else if e == '"' {
            with_first('"', body_value(rest, false))
        } else if e == 'x' {
            if rest.len() >= 2 && '0' <= rest[0] && rest[0] <= '7' && is_hex(rest[1]) {
                with_first((hex_digit(rest[0]) * 16 + hex_digit(rest[1])) as char, body_value(rest.skip(2), false))
            } else {
                None
            }
        } else if e == 'u' {
            if rest.len() >= 1 && rest[0] == '{' {
                let inner = rest.skip(1);
                match find(inner, '}') {
                    Some(j) => {
                        proof {
                            lemma_find(inner, '}');
                        }
                        let digits = inner.take(j);
                        if is_unicode_digits(digits) && is_scalar(hex_value(digits)) {
                            with_first(hex_value(digits) as char, body_value(inner.skip(j + 1), false))
                        } else {
                            None
                        }
                    },
                    None => None,
                }
            } else {
                None
            }
        } else if e == '\n' {
            body_value(rest, true)
        } else if e == '\r' {
            if rest.len() >= 1 && rest[0] == '\n' {
                body_value(rest.skip(1), true)
            } else {
                None
            }
        } else {
            None
        }
    }
}

/// The value that the Rust string literal token `t` (a quoted literal
/// without prefix or suffix) denotes, or `None` when `t` is no such token.
pub open spec fn string_literal_value(t: Seq<char>) -> Option<Seq<char>> {
    if t.len() >= 2 && t[0] == '"' && t[t.len() - 1] == '"' {
        body_value(t.subrange(1, t.len() - 1), false)
    } else {
        None
    }
}

/// The text of a Rust string literal token whose value is `value`.
///
/// Wraps `proc_macro2::Literal::string` followed by its `to_string`. Both
/// escapers it may use (the compiler's inside a procedural macro, its own
/// `escape_debug` based one elsewhere) write a quoted literal that denotes
/// `value`; they differ only in which characters they escape and how, which
/// is left unsaid.
#[verifier::external_body]
pub(crate) fn string_literal(value: &str) -> (r: String)
    ensures
        string_literal_value(r@) == Some(value@),
{
    proc_macro2::Literal::string(value).to_string()
}

/// The value of the string literal token `text`.
///
/// Wraps `syn::parse_str::<syn::LitStr>` followed by `value`. When `text`
/// is a quoted literal that denotes a value, every lexer `proc-macro2` may
/// use reads it as one string literal token and `syn` decodes that value.
/// Left unsaid: the result for other text (raw strings and literals with a
/// suffix are string literals too).
#[verifier::external_body]
pub(crate) fn string_value(text: &str) -> (r: Option<String>)
    ensures
        string_literal_value(text@) is Some ==> (r is Some && r->Some_0@ == string_literal_value(text@)->Some_0),
{
    syn::parse_str::<syn::LitStr>(text).ok().map(|literal| literal.value())
}

/// The base-10 digits of the integer literal token `text`.
///
/// Wraps `syn::parse_str::<syn::LitInt>` followed by `base10_digits`. For a
/// run of ASCII decimal digits these are the digits of its value without
/// leading zeros. Left unsaid: the result for other text (prefixed bases,
/// separators and suffixes are integer literals too).
#[verifier::external_body]
pub(crate) fn integer_digits(text: &str) -> (r: Option<String>)
    ensures
        (text@.len() > 0 && all_digits(text@)) ==> (r is Some && r->Some_0@ == decimal(digits_value(text@))),
{
    syn::parse_str::<syn::LitInt>(text).ok().map(|literal| literal.base10_digits().to_string())
}

} // verus!
